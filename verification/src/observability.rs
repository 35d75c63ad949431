//! Observability tools: the status report's configuration snapshot and the arguments of the
//! audit listing.
use vstd::prelude::*;
use crate::auth::ScopeMap;
use crate::json::{JsonNumber, JsonValue, jopt_str, jstr, jstr_array, opt_text_json, string_array_json, string_text};

verus! {

/// Arguments for `audit.list`.
#[derive(Debug, Clone, PartialEq)]
pub struct AuditListArgs {
    pub limit: Option<u32>,
}

/// How many audit entries are returned: the limit when given, otherwise 50.
pub fn audit_limit(args: &AuditListArgs) -> (n: usize)
    ensures
        n == match args.limit {
            Some(l) => l as int,
            None => 50int,
        },
{
    match args.limit {
        Some(l) => l as usize,
        None => 50,
    }
}


/// How the server authenticates bearer tokens.
#[derive(Debug, Clone, Copy, PartialEq, Eq)]
pub enum AuthMode {
    Introspection,
    Jwks,
}

/// How the server authenticates itself to the introspection endpoint.
#[derive(Debug, Clone, Copy, PartialEq, Eq)]
pub enum ClientAuthMethod {
    ClientSecretBasic,
    ClientSecretPost,
}

/// Whether and how client certificates are checked.
#[derive(Debug, Clone, Copy, PartialEq, Eq)]
pub enum MtlsMode {
    Disabled,
    Native,
    ProxyHeader,
}

/// The deployment settings `status.get` reports, as plain values. PEM material is held as
/// text and is only ever reported as whether it is configured.
#[derive(Debug, Clone, PartialEq)]
pub struct DeploymentSettings {
    pub bind_addr: String,
    pub resource_url: String,
    pub resource_metadata_url: String,
    pub authorization_servers: Vec<String>,
    pub scopes_supported: Vec<String>,
    pub auth_mode: AuthMode,
    pub issuer: Option<String>,
    pub audience: Option<String>,
    pub clock_skew_seconds: u64,
    pub introspection_url: Option<String>,
    pub introspection_auth_method: ClientAuthMethod,
    pub jwks_url: Option<String>,
    pub dpop_required: bool,
    pub mtls_mode: MtlsMode,
    pub mtls_client_cert_header: Option<String>,
    pub server_tls_cert_pem: Option<String>,
    pub server_tls_key_pem: Option<String>,
    pub server_tls_client_ca_pem: Option<String>,
    pub gateway_base_url: String,
    pub gateway_timeout_ms: u64,
    pub gateway_tls_ca_pem: Option<String>,
    pub gateway_tls_client_cert_pem: Option<String>,
    pub gateway_tls_client_key_pem: Option<String>,
    pub keycloak_base_url: String,
    pub keycloak_admin_realm: String,
    pub keycloak_client_id: String,
    pub audit_log_max: u64,
    pub audit_log_path: Option<String>,
    pub audit_checkpoint_path: Option<String>,
    pub audit_log_max_bytes: u64,
    pub audit_log_max_files: u64,
}

/// The reported name of an authentication mode.
pub open spec fn auth_mode_label(m: AuthMode) -> Seq<char> {
    match m {
        AuthMode::Introspection => "introspection"@,
        AuthMode::Jwks => "jwks"@,
    }
}

/// The reported name of an introspection client authentication method.
pub open spec fn auth_method_label(m: ClientAuthMethod) -> Seq<char> {
    match m {
        ClientAuthMethod::ClientSecretBasic => "client_secret_basic"@,
        ClientAuthMethod::ClientSecretPost => "client_secret_post"@,
    }
}

/// The reported name of an mTLS mode.
pub open spec fn mtls_mode_label(m: MtlsMode) -> Seq<char> {
    match m {
        MtlsMode::Disabled => "disabled"@,
        MtlsMode::Native => "native"@,
        MtlsMode::ProxyHeader => "proxy"@,
    }
}

/// `v` is the JSON array of the strings `l`.
pub open spec fn is_string_list(v: JsonValue, l: Seq<String>) -> bool {
    v matches JsonValue::Array(items) && items@ == string_array_json(l)
}

/// `v` is an object whose members are, in order, the keys `keys` each holding the
/// corresponding list of `lists` as a JSON array of strings.
pub open spec fn is_list_family(v: JsonValue, keys: Seq<Seq<char>>, lists: Seq<Seq<String>>) -> bool {
    &&& keys.len() == lists.len()
    &&& v matches JsonValue::Object(e)
    &&& e@.len() == keys.len()
    &&& forall|i: int| 0 <= i < keys.len() ==> (#[trigger] e@[i]).0@ == keys[i] && is_string_list(e@[i].1, lists[i])
}

/// `v` reports the scope of every tool family: `users`, `groups`, `roles`, `clients`,
/// `client_scopes`, `identity_providers`, `realms`, `events`, `tokens`, `observability`, each
/// an object of its scope lists.
pub open spec fn is_scope_map_json(v: JsonValue, m: ScopeMap) -> bool {
    v matches JsonValue::Object(e) && e@.len() == 10
        && e@[0].0@ == "users"@ && is_list_family(e@[0].1, seq!["read"@, "write"@], seq![m.users.read@, m.users.write@])
        && e@[1].0@ == "groups"@ && is_list_family(e@[1].1, seq!["read"@, "write"@], seq![m.groups.read@, m.groups.write@])
        && e@[2].0@ == "roles"@ && is_list_family(e@[2].1, seq!["read"@, "write"@], seq![m.roles.read@, m.roles.write@])
        && e@[3].0@ == "clients"@ && is_list_family(
            e@[3].1,
            seq!["read"@, "write"@, "secrets"@],
            seq![m.clients.read@, m.clients.write@, m.clients.secrets@],
        )
        && e@[4].0@ == "client_scopes"@ && is_list_family(
            e@[4].1,
            seq!["read"@, "write"@],
            seq![m.client_scopes.read@, m.client_scopes.write@],
        )
        && e@[5].0@ == "identity_providers"@ && is_list_family(
            e@[5].1,
            seq!["read"@, "write"@],
            seq![m.identity_providers.read@, m.identity_providers.write@],
        )
        && e@[6].0@ == "realms"@ && is_list_family(
            e@[6].1,
            seq!["read"@, "write"@, "admin"@],
            seq![m.realms.read@, m.realms.write@, m.realms.admin@],
        )
        && e@[7].0@ == "events"@ && is_list_family(e@[7].1, seq!["read"@, "admin"@], seq![m.events.read@, m.events.admin@])
        && e@[8].0@ == "tokens"@ && is_list_family(e@[8].1, seq!["read"@], seq![m.tokens.read@])
        && e@[9].0@ == "observability"@ && is_list_family(e@[9].1, seq!["read"@], seq![m.observability.read@])
}

/// A JSON integer.
pub open spec fn int_json(n: u64) -> JsonValue {
    JsonValue::Number(JsonNumber::Int(n as i128))
}

/// The members of the configuration snapshot, in order. Each PEM setting is reported only as
/// a boolean telling whether it is configured.
pub open spec fn is_status_config(e: Seq<(String, JsonValue)>, s: DeploymentSettings, m: ScopeMap, secrets: bool) -> bool {
    &&& e.len() == 33
    &&& e[0].0@ == "bind_addr"@ && e[0].1 == JsonValue::String(s.bind_addr)
    &&& e[1].0@ == "resource_url"@ && e[1].1 == JsonValue::String(s.resource_url)
    &&& e[2].0@ == "resource_metadata_url"@ && e[2].1 == JsonValue::String(s.resource_metadata_url)
    &&& e[3].0@ == "authorization_servers"@ && is_string_list(e[3].1, s.authorization_servers@)
    &&& e[4].0@ == "scopes_supported"@ && is_string_list(e[4].1, s.scopes_supported@)
    &&& e[5].0@ == "scope_map"@ && is_scope_map_json(e[5].1, m)
    &&& e[6].0@ == "auth_mode"@ && string_text(e[6].1) == Some(auth_mode_label(s.auth_mode))
    &&& e[7].0@ == "issuer"@ && e[7].1 == opt_text_json(s.issuer)
    &&& e[8].0@ == "audience"@ && e[8].1 == opt_text_json(s.audience)
    &&& e[9].0@ == "clock_skew_seconds"@ && e[9].1 == int_json(s.clock_skew_seconds)
    &&& e[10].0@ == "introspection_url"@ && e[10].1 == opt_text_json(s.introspection_url)
    &&& e[11].0@ == "introspection_auth_method"@ && string_text(e[11].1) == Some(
        auth_method_label(s.introspection_auth_method),
    )
    &&& e[12].0@ == "jwks_url"@ && e[12].1 == opt_text_json(s.jwks_url)
    &&& e[13].0@ == "dpop_required"@ && e[13].1 == JsonValue::Bool(s.dpop_required)
    &&& e[14].0@ == "mtls_mode"@ && string_text(e[14].1) == Some(mtls_mode_label(s.mtls_mode))
    &&& e[15].0@ == "mtls_client_cert_header"@ && e[15].1 == opt_text_json(s.mtls_client_cert_header)
    &&& e[16].0@ == "server_tls_cert_configured"@ && e[16].1 == JsonValue::Bool(s.server_tls_cert_pem is Some)
    &&& e[17].0@ == "server_tls_key_configured"@ && e[17].1 == JsonValue::Bool(s.server_tls_key_pem is Some)
    &&& e[18].0@ == "server_tls_client_ca_configured"@ && e[18].1 == JsonValue::Bool(
        s.server_tls_client_ca_pem is Some,
    )
    &&& e[19].0@ == "gateway_base_url"@ && e[19].1 == JsonValue::String(s.gateway_base_url)
    &&& e[20].0@ == "gateway_timeout_ms"@ && e[20].1 == int_json(s.gateway_timeout_ms)
    &&& e[21].0@ == "gateway_tls_ca_configured"@ && e[21].1 == JsonValue::Bool(s.gateway_tls_ca_pem is Some)
    &&& e[22].0@ == "gateway_tls_client_cert_configured"@ && e[22].1 == JsonValue::Bool(
        s.gateway_tls_client_cert_pem is Some,
    )
    &&& e[23].0@ == "gateway_tls_client_key_configured"@ && e[23].1 == JsonValue::Bool(
        s.gateway_tls_client_key_pem is Some,
    )
    &&& e[24].0@ == "keycloak_base_url"@ && e[24].1 == JsonValue::String(s.keycloak_base_url)
    &&& e[25].0@ == "keycloak_admin_realm"@ && e[25].1 == JsonValue::String(s.keycloak_admin_realm)
    &&& e[26].0@ == "keycloak_client_id"@ && e[26].1 == JsonValue::String(s.keycloak_client_id)
    &&& e[27].0@ == "enable_secret_tools"@ && e[27].1 == JsonValue::Bool(secrets)
    &&& e[28].0@ == "audit_log_max"@ && e[28].1 == int_json(s.audit_log_max)
    &&& e[29].0@ == "audit_log_path"@ && e[29].1 == opt_text_json(s.audit_log_path)
    &&& e[30].0@ == "audit_checkpoint_path"@ && e[30].1 == opt_text_json(s.audit_checkpoint_path)
    &&& e[31].0@ == "audit_log_max_bytes"@ && e[31].1 == int_json(s.audit_log_max_bytes)
    &&& e[32].0@ == "audit_log_max_files"@ && e[32].1 == int_json(s.audit_log_max_files)
}

fn push_list(e: &mut Vec<(String, JsonValue)>, key: &str, l: &Vec<String>)
    ensures
        final(e)@.len() == old(e)@.len() + 1,
        final(e)@.subrange(0, old(e)@.len() as int) == old(e)@,
        final(e)@.last().0@ == key@ && is_string_list(final(e)@.last().1, l@),
{
    let v = jstr_array(l.as_slice());
    e.push((String::from_str(key), v));
    assert(e@.subrange(0, old(e)@.len() as int) =~= old(e)@);
}

fn list_family_2(k0: &str, l0: &Vec<String>, k1: &str, l1: &Vec<String>) -> (v: JsonValue)
    ensures
        is_list_family(v, seq![k0@, k1@], seq![l0@, l1@]),
{
    let mut e: Vec<(String, JsonValue)> = Vec::new();
    push_list(&mut e, k0, l0);
    push_list(&mut e, k1, l1);
    assert(e@[0] == e@.subrange(0, 1)[0]);
    JsonValue::Object(e)
}

fn list_family_3(k0: &str, l0: &Vec<String>, k1: &str, l1: &Vec<String>, k2: &str, l2: &Vec<String>) -> (v: JsonValue)
    ensures
        is_list_family(v, seq![k0@, k1@, k2@], seq![l0@, l1@, l2@]),
{
    let mut e: Vec<(String, JsonValue)> = Vec::new();
    push_list(&mut e, k0, l0);
    push_list(&mut e, k1, l1);
    assert(e@[0] == e@.subrange(0, 1)[0]);
    let ghost e2 = e@;
    push_list(&mut e, k2, l2);
    assert(e@[0] == e2[0] && e@[1] == e2[1]);
    JsonValue::Object(e)
}

fn list_family_1(k0: &str, l0: &Vec<String>) -> (v: JsonValue)
    ensures
        is_list_family(v, seq![k0@], seq![l0@]),
{
    let mut e: Vec<(String, JsonValue)> = Vec::new();
    push_list(&mut e, k0, l0);
    JsonValue::Object(e)
}

/// The scope map as `status.get` reports it.
pub fn scope_map_json(m: &ScopeMap) -> (v: JsonValue)
    ensures
        is_scope_map_json(v, *m),
{
    let mut e: Vec<(String, JsonValue)> = Vec::new();
    e.push((String::from_str("users"), list_family_2("read", &m.users.read, "write", &m.users.write)));
    e.push((String::from_str("groups"), list_family_2("read", &m.groups.read, "write", &m.groups.write)));
    e.push((String::from_str("roles"), list_family_2("read", &m.roles.read, "write", &m.roles.write)));
    e.push(
        (
            String::from_str("clients"),
            list_family_3("read", &m.clients.read, "write", &m.clients.write, "secrets", &m.clients.secrets),
        ),
    );
    e.push(
        (
            String::from_str("client_scopes"),
            list_family_2("read", &m.client_scopes.read, "write", &m.client_scopes.write),
        ),
    );
    e.push(
        (
            String::from_str("identity_providers"),
            list_family_2("read", &m.identity_providers.read, "write", &m.identity_providers.write),
        ),
    );
    e.push(
        (
            String::from_str("realms"),
            list_family_3("read", &m.realms.read, "write", &m.realms.write, "admin", &m.realms.admin),
        ),
    );
    e.push((String::from_str("events"), list_family_2("read", &m.events.read, "admin", &m.events.admin)));
    e.push((String::from_str("tokens"), list_family_1("read", &m.tokens.read)));
    e.push((String::from_str("observability"), list_family_1("read", &m.observability.read)));
    JsonValue::Object(e)
}

fn label_json(m: AuthMode, t: ClientAuthMethod, x: MtlsMode) -> (r: (JsonValue, JsonValue, JsonValue))
    ensures
        string_text(r.0) == Some(auth_mode_label(m)),
        string_text(r.1) == Some(auth_method_label(t)),
        string_text(r.2) == Some(mtls_mode_label(x)),
{
    let a = match m {
        AuthMode::Introspection => jstr("introspection"),
        AuthMode::Jwks => jstr("jwks"),
    };
    let b = match t {
        ClientAuthMethod::ClientSecretBasic => jstr("client_secret_basic"),
        ClientAuthMethod::ClientSecretPost => jstr("client_secret_post"),
    };
    let c = match x {
        MtlsMode::Disabled => jstr("disabled"),
        MtlsMode::Native => jstr("native"),
        MtlsMode::ProxyHeader => jstr("proxy"),
    };
    (a, b, c)
}

fn int_value(n: u64) -> (v: JsonValue)
    ensures
        v == int_json(n),
{
    JsonValue::Number(JsonNumber::Int(n as i128))
}

/// The configuration snapshot `status.get` reports: the deployment settings, the scope map
/// and whether secret tools are enabled. PEM material never appears in it.
pub fn status_config_snapshot(s: &DeploymentSettings, m: &ScopeMap, enable_secret_tools: bool) -> (v: JsonValue)
    ensures
        v matches JsonValue::Object(e) && is_status_config(e@, *s, *m, enable_secret_tools),
{
    let (auth_mode, auth_method, mtls_mode) = label_json(s.auth_mode, s.introspection_auth_method, s.mtls_mode);
    let mut e: Vec<(String, JsonValue)> = Vec::new();
    e.push((String::from_str("bind_addr"), JsonValue::String(s.bind_addr.clone())));
    e.push((String::from_str("resource_url"), JsonValue::String(s.resource_url.clone())));
    e.push((String::from_str("resource_metadata_url"), JsonValue::String(s.resource_metadata_url.clone())));
    e.push((String::from_str("authorization_servers"), jstr_array(s.authorization_servers.as_slice())));
    e.push((String::from_str("scopes_supported"), jstr_array(s.scopes_supported.as_slice())));
    e.push((String::from_str("scope_map"), scope_map_json(m)));
    e.push((String::from_str("auth_mode"), auth_mode));
    e.push((String::from_str("issuer"), jopt_str(&s.issuer)));
    e.push((String::from_str("audience"), jopt_str(&s.audience)));
    e.push((String::from_str("clock_skew_seconds"), int_value(s.clock_skew_seconds)));
    e.push((String::from_str("introspection_url"), jopt_str(&s.introspection_url)));
    e.push((String::from_str("introspection_auth_method"), auth_method));
    e.push((String::from_str("jwks_url"), jopt_str(&s.jwks_url)));
    e.push((String::from_str("dpop_required"), JsonValue::Bool(s.dpop_required)));
    e.push((String::from_str("mtls_mode"), mtls_mode));
    e.push((String::from_str("mtls_client_cert_header"), jopt_str(&s.mtls_client_cert_header)));
    e.push((String::from_str("server_tls_cert_configured"), JsonValue::Bool(s.server_tls_cert_pem.is_some())));
    e.push((String::from_str("server_tls_key_configured"), JsonValue::Bool(s.server_tls_key_pem.is_some())));
    e.push(
        (String::from_str("server_tls_client_ca_configured"), JsonValue::Bool(s.server_tls_client_ca_pem.is_some())),
    );
    e.push((String::from_str("gateway_base_url"), JsonValue::String(s.gateway_base_url.clone())));
    e.push((String::from_str("gateway_timeout_ms"), int_value(s.gateway_timeout_ms)));
    e.push((String::from_str("gateway_tls_ca_configured"), JsonValue::Bool(s.gateway_tls_ca_pem.is_some())));
    e.push(
        (
            String::from_str("gateway_tls_client_cert_configured"),
            JsonValue::Bool(s.gateway_tls_client_cert_pem.is_some()),
        ),
    );
    e.push(
        (
            String::from_str("gateway_tls_client_key_configured"),
            JsonValue::Bool(s.gateway_tls_client_key_pem.is_some()),
        ),
    );
    e.push((String::from_str("keycloak_base_url"), JsonValue::String(s.keycloak_base_url.clone())));
    e.push((String::from_str("keycloak_admin_realm"), JsonValue::String(s.keycloak_admin_realm.clone())));
    e.push((String::from_str("keycloak_client_id"), JsonValue::String(s.keycloak_client_id.clone())));
    e.push((String::from_str("enable_secret_tools"), JsonValue::Bool(enable_secret_tools)));
    e.push((String::from_str("audit_log_max"), int_value(s.audit_log_max)));
    e.push((String::from_str("audit_log_path"), jopt_str(&s.audit_log_path)));
    e.push((String::from_str("audit_checkpoint_path"), jopt_str(&s.audit_checkpoint_path)));
    e.push((String::from_str("audit_log_max_bytes"), int_value(s.audit_log_max_bytes)));
    e.push((String::from_str("audit_log_max_files"), int_value(s.audit_log_max_files)));
    JsonValue::Object(e)
}

} // verus!
