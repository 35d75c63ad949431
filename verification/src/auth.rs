//! Authenticated caller context, deployment configuration and the scope/role gates that
//! every tool passes before it reaches the gateway.
use vstd::prelude::*;
use crate::text::{joined, string_views, join_strings};
use crate::errors::{ToolError, tool_error_with_hint, without_context};

verus! {

/// The authenticated caller: granted token scopes, realm roles and the request id.
#[derive(Debug, Clone, PartialEq)]
pub struct AuthContext {
    pub scopes: Vec<String>,
    pub roles: Vec<String>,
    pub request_id: String,
}

/// Read and write scopes of a tool family.
#[derive(Debug, Clone, PartialEq)]
pub struct ReadWriteScopes {
    pub read: Vec<String>,
    pub write: Vec<String>,
}

/// Scopes of the clients tool family.
#[derive(Debug, Clone, PartialEq)]
pub struct ClientsScopes {
    pub read: Vec<String>,
    pub write: Vec<String>,
    pub secrets: Vec<String>,
}

/// Scopes of the realms tool family.
#[derive(Debug, Clone, PartialEq)]
pub struct RealmsScopes {
    pub read: Vec<String>,
    pub write: Vec<String>,
    pub admin: Vec<String>,
}

/// Scopes of the events tool family.
#[derive(Debug, Clone, PartialEq)]
pub struct EventsScopes {
    pub read: Vec<String>,
    pub admin: Vec<String>,
}

/// Scopes of a read-only tool family.
#[derive(Debug, Clone, PartialEq)]
pub struct ReadScopes {
    pub read: Vec<String>,
}

/// The configured scope of every tool family.
#[derive(Debug, Clone, PartialEq)]
pub struct ScopeMap {
    pub users: ReadWriteScopes,
    pub groups: ReadWriteScopes,
    pub roles: ReadWriteScopes,
    pub clients: ClientsScopes,
    pub client_scopes: ReadWriteScopes,
    pub identity_providers: ReadWriteScopes,
    pub realms: RealmsScopes,
    pub events: EventsScopes,
    pub tokens: ReadScopes,
    pub observability: ReadScopes,
}

/// Realm roles that grant read access and write access.
#[derive(Debug, Clone, PartialEq)]
pub struct RoleRequirements {
    pub read: Vec<String>,
    pub write: Vec<String>,
}

/// The deployment settings that the gates read.
#[derive(Debug, Clone, PartialEq)]
pub struct Config {
    pub scope_map: ScopeMap,
    pub role_requirements: RoleRequirements,
    pub enable_secret_tools: bool,
}

/// Whether one of the strings `v` has the text `s`.
pub open spec fn has_text(v: Seq<String>, s: Seq<char>) -> bool {
    exists|i: int| 0 <= i < v.len() && (#[trigger] v[i])@ == s
}

/// Appending a string adds exactly its text.
pub proof fn lemma_has_text_push(v: Seq<String>, x: String, s: Seq<char>)
    ensures
        has_text(v.push(x), s) <==> (has_text(v, s) || x@ == s),
{
    let w = v.push(x);
    if has_text(v, s) {
        let j = choose|j: int| 0 <= j < v.len() && (#[trigger] v[j])@ == s;
        assert(w[j] == v[j]);
    }
    if x@ == s {
        assert(w[v.len() as int] == x);
    }
    if has_text(w, s) {
        let j = choose|j: int| 0 <= j < w.len() && (#[trigger] w[j])@ == s;
        if j < v.len() {
            assert(w[j] == v[j]);
        }
    }
}

/// The entries of `required` (in order, with repeats) that `granted` lacks.
pub open spec fn missing_texts(required: Seq<String>, granted: Seq<String>) -> Seq<String>
    decreases required.len(),
{
    if required.len() == 0 {
        Seq::<String>::empty()
    } else {
        let rest = missing_texts(required.drop_last(), granted);
        if has_text(granted, required.last()@) {
            rest
        } else {
            rest.push(required.last())
        }
    }
}

/// Every required scope is granted.
pub open spec fn scopes_granted(granted: Seq<String>, required: Seq<String>) -> bool {
    forall|i: int| 0 <= i < required.len() ==> has_text(granted, (#[trigger] required[i])@)
}

/// Which roles a set of required scopes asks for.
#[derive(Debug, PartialEq, Eq, Structural, Clone, Copy)]
pub enum RoleGateKind {
    Read,
    Write,
    Ungated,
}

/// A scope that a write or admin tool requires.
pub open spec fn is_write_scope(m: ScopeMap, s: Seq<char>) -> bool {
    ||| has_text(m.users.write@, s)
    ||| has_text(m.groups.write@, s)
    ||| has_text(m.roles.write@, s)
    ||| has_text(m.clients.write@, s)
    ||| has_text(m.clients.secrets@, s)
    ||| has_text(m.client_scopes.write@, s)
    ||| has_text(m.identity_providers.write@, s)
    ||| has_text(m.realms.write@, s)
    ||| has_text(m.realms.admin@, s)
    ||| has_text(m.events.admin@, s)
}

/// A scope that a read tool requires.
pub open spec fn is_read_scope(m: ScopeMap, s: Seq<char>) -> bool {
    ||| has_text(m.users.read@, s)
    ||| has_text(m.groups.read@, s)
    ||| has_text(m.roles.read@, s)
    ||| has_text(m.clients.read@, s)
    ||| has_text(m.client_scopes.read@, s)
    ||| has_text(m.identity_providers.read@, s)
    ||| has_text(m.realms.read@, s)
    ||| has_text(m.events.read@, s)
    ||| has_text(m.tokens.read@, s)
    ||| has_text(m.observability.read@, s)
}

/// Write when any required scope is a write scope, else read when any is a read scope.
pub open spec fn gate_of(required: Seq<String>, m: ScopeMap) -> RoleGateKind {
    if exists|i: int| 0 <= i < required.len() && is_write_scope(m, (#[trigger] required[i])@) {
        RoleGateKind::Write
    } else if exists|i: int| 0 <= i < required.len() && is_read_scope(m, (#[trigger] required[i])@) {
        RoleGateKind::Read
    } else {
        RoleGateKind::Ungated
    }
}

/// Some role of `required` is held.
pub open spec fn holds_any(held: Seq<String>, required: Seq<String>) -> bool {
    exists|i: int| 0 <= i < required.len() && has_text(held, (#[trigger] required[i])@)
}

/// Whether the caller's roles satisfy what the required scopes ask for.
pub open spec fn roles_admit(held: Seq<String>, required: Seq<String>, config: Config) -> bool {
    let gate = gate_of(required, config.scope_map);
    let read = config.role_requirements.read@;
    let write = config.role_requirements.write@;
    if gate == RoleGateKind::Ungated || (read.len() == 0 && write.len() == 0) {
        true
    } else if gate == RoleGateKind::Write {
        holds_any(held, write)
    } else {
        holds_any(held, read) || holds_any(held, write)
    }
}

/// Whether `v` has a string with the same text as `s`.
pub fn contains_text(v: &[String], s: &String) -> (r: bool)
    ensures
        r == has_text(v@, s@),
{
    let n = v.len();
    for i in 0..n
        invariant
            n == v@.len(),
            forall|k: int| 0 <= k < i ==> v@[k]@ != s@,
    {
        if v[i] == *s {
            return true;
        }
    }
    false
}

/// Whether the caller holds any of the required roles.
pub fn has_any_role(role_set: &[String], required: &[String]) -> (r: bool)
    ensures
        r == holds_any(role_set@, required@),
{
    let n = required.len();
    for i in 0..n
        invariant
            n == required@.len(),
            forall|k: int| 0 <= k < i ==> !has_text(role_set@, (#[trigger] required@[k])@),
    {
        if contains_text(role_set, &required[i]) {
            return true;
        }
    }
    false
}

/// Classifies required scopes into the role gate they impose.
pub fn classify_scopes(required_scopes: &[String], scope_map: &ScopeMap) -> (g: RoleGateKind)
    ensures
        g == gate_of(required_scopes@, *scope_map),
{
    let m = scope_map;
    let n = required_scopes.len();
    let mut found_write = false;
    for i in 0..n
        invariant
            n == required_scopes@.len(),
            found_write == exists|k: int| 0 <= k < i && is_write_scope(*m, (#[trigger] required_scopes@[k])@),
    {
        let s = &required_scopes[i];
        let w = contains_text(&m.users.write, s) || contains_text(&m.groups.write, s)
            || contains_text(&m.roles.write, s) || contains_text(&m.clients.write, s)
            || contains_text(&m.clients.secrets, s) || contains_text(&m.client_scopes.write, s)
            || contains_text(&m.identity_providers.write, s) || contains_text(&m.realms.write, s)
            || contains_text(&m.realms.admin, s) || contains_text(&m.events.admin, s);
        found_write = found_write || w;
    }
    if found_write {
        return RoleGateKind::Write;
    }
    let mut found_read = false;
    for i in 0..n
        invariant
            n == required_scopes@.len(),
            found_read == exists|k: int| 0 <= k < i && is_read_scope(*m, (#[trigger] required_scopes@[k])@),
    {
        let s = &required_scopes[i];
        let r = contains_text(&m.users.read, s) || contains_text(&m.groups.read, s)
            || contains_text(&m.roles.read, s) || contains_text(&m.clients.read, s)
            || contains_text(&m.client_scopes.read, s) || contains_text(&m.identity_providers.read, s)
            || contains_text(&m.realms.read, s) || contains_text(&m.events.read, s)
            || contains_text(&m.tokens.read, s) || contains_text(&m.observability.read, s);
        found_read = found_read || r;
    }
    if found_read {
        RoleGateKind::Read
    } else {
        RoleGateKind::Ungated
    }
}

/// The required scopes the caller lacks, in order.
pub fn missing_scopes(granted: &[String], required: &[String]) -> (m: Vec<String>)
    ensures
        m@ == missing_texts(required@, granted@),
{
    let mut out: Vec<String> = Vec::new();
    let n = required.len();
    for i in 0..n
        invariant
            n == required@.len(),
            out@ == missing_texts(required@.take(i as int), granted@),
    {
        assert(required@.take(i + 1).drop_last() =~= required@.take(i as int));
        if !contains_text(granted, &required[i]) {
            out.push(required[i].clone());
        }
    }
    assert(required@.take(n as int) =~= required@);
    out
}

/// No text is missing exactly when every required text is granted.
pub proof fn lemma_missing_empty(required: Seq<String>, granted: Seq<String>)
    ensures
        (missing_texts(required, granted).len() == 0) <==> scopes_granted(granted, required),
    decreases required.len(),
{
    if required.len() > 0 {
        lemma_missing_empty(required.drop_last(), granted);
        let last = required.len() - 1;
        if scopes_granted(granted, required) {
            assert forall|i: int| 0 <= i < required.drop_last().len() implies has_text(
                granted,
                (#[trigger] required.drop_last()[i])@,
            ) by {
                assert(required.drop_last()[i] == required[i]);
            }
            assert(has_text(granted, required[last]@));
        } else {
            let j = choose|j: int| 0 <= j < required.len() && !has_text(granted, (#[trigger] required[j])@);
            if j < last {
                assert(required.drop_last()[j] == required[j]);
            }
        }
    }
}

/// The message of a missing-scopes error.
pub open spec fn missing_scopes_message(missing: Seq<String>) -> Seq<char> {
    "Token missing required scopes: "@ + joined(string_views(missing), ", "@)
}

/// Ensures the token carries all required scopes; fails closed with `auth.missing_scopes`
/// naming the missing ones.
pub fn require_scopes(ctx: &AuthContext, required: &[String]) -> (r: Result<(), ToolError>)
    ensures
        r is Ok <==> scopes_granted(ctx.scopes@, required@),
        r matches Err(e) ==> {
            &&& e.code@ == "auth.missing_scopes"@
            &&& e.message@ == missing_scopes_message(missing_texts(required@, ctx.scopes@))
            &&& e.request_id@ == ctx.request_id@
            &&& e.hint matches Some(h) && h@ == "Request a token with the required scopes."@
            &&& without_context(e)
        },
{
    proof {
        lemma_missing_empty(required@, ctx.scopes@);
    }
    if required.len() == 0 {
        return Ok(());
    }
    let missing = missing_scopes(&ctx.scopes, required);
    if missing.len() == 0 {
        return Ok(());
    }
    let mut message = String::from_str("Token missing required scopes: ");
    let list = join_strings(&missing, ", ");
    message.append(list.as_str());
    Err(
        tool_error_with_hint(
            "auth.missing_scopes",
            message.as_str(),
            ctx.request_id.as_str(),
            "Request a token with the required scopes.",
        ),
    )
}

/// The message of a missing-roles error for write access.
pub open spec fn missing_write_roles_message(write: Seq<String>) -> Seq<char> {
    "Token missing required roles for write access: "@ + joined(string_views(write), ", "@)
}

/// The message of a missing-roles error for read access.
pub open spec fn missing_read_roles_message(read: Seq<String>) -> Seq<char> {
    "Token missing required roles for read access: "@ + joined(string_views(read), ", "@)
}

/// Ensures the caller's roles satisfy the read or write gate derived from the requested
/// scopes. A write gate accepts only write roles; a read gate accepts read or write roles;
/// no gate applies when the scopes are neither, or when no roles are configured.
pub fn require_roles_for_scopes(
    ctx: &AuthContext,
    required_scopes: &[String],
    config: &Config,
) -> (r: Result<(), ToolError>)
    ensures
        r is Ok <==> roles_admit(ctx.roles@, required_scopes@, *config),
        r matches Err(e) ==> {
            &&& e.code@ == "auth.missing_roles"@
            &&& e.request_id@ == ctx.request_id@
            &&& without_context(e)
            &&& if gate_of(required_scopes@, config.scope_map) == RoleGateKind::Write {
                &&& e.message@ == missing_write_roles_message(config.role_requirements.write@)
                &&& e.hint matches Some(h) && h@ == "Assign a write role to access this tool."@
            } else {
                &&& e.message@ == missing_read_roles_message(config.role_requirements.read@)
                &&& e.hint matches Some(h) && h@ == "Assign a read or write role to access this tool."@
            }
        },
{
    let gate = classify_scopes(required_scopes, &config.scope_map);
    if gate == RoleGateKind::Ungated {
        return Ok(());
    }
    let read_roles = &config.role_requirements.read;
    let write_roles = &config.role_requirements.write;
    if read_roles.len() == 0 && write_roles.len() == 0 {
        return Ok(());
    }
    if gate == RoleGateKind::Write {
        if has_any_role(&ctx.roles, write_roles) {
            return Ok(());
        }
        let mut message = String::from_str("Token missing required roles for write access: ");
        let list = join_strings(write_roles, ", ");
        message.append(list.as_str());
        return Err(
            tool_error_with_hint(
                "auth.missing_roles",
                message.as_str(),
                ctx.request_id.as_str(),
                "Assign a write role to access this tool.",
            ),
        );
    }
    if has_any_role(&ctx.roles, read_roles) || has_any_role(&ctx.roles, write_roles) {
        return Ok(());
    }
    let mut message = String::from_str("Token missing required roles for read access: ");
    let list = join_strings(read_roles, ", ");
    message.append(list.as_str());
    Err(
        tool_error_with_hint(
            "auth.missing_roles",
            message.as_str(),
            ctx.request_id.as_str(),
            "Assign a read or write role to access this tool.",
        ),
    )
}

/// Rejects secret-bearing tools when the deployment disabled them.
pub fn ensure_secret_tools_enabled(ctx: &AuthContext, config: &Config) -> (r: Result<(), ToolError>)
    ensures
        r is Ok <==> config.enable_secret_tools,
        r matches Err(e) ==> {
            &&& e.code@ == "auth.secrets_disabled"@
            &&& e.message@ == "Secret tools are disabled for this deployment."@
            &&& e.request_id@ == ctx.request_id@
            &&& e.hint matches Some(h) && h@
                == "Enable KC_ADMIN_MCP_ENABLE_SECRET_TOOLS to use secret tools."@
            &&& without_context(e)
        },
{
    if config.enable_secret_tools {
        return Ok(());
    }
    Err(
        tool_error_with_hint(
            "auth.secrets_disabled",
            "Secret tools are disabled for this deployment.",
            ctx.request_id.as_str(),
            "Enable KC_ADMIN_MCP_ENABLE_SECRET_TOOLS to use secret tools.",
        ),
    )
}

/// Granting more scopes never revokes access: if the scopes a token carries satisfy a tool's
/// requirement, any token carrying at least those scopes satisfies it too.
pub proof fn law_scope_check_monotone(granted: Seq<String>, more: Seq<String>, required: Seq<String>)
    requires
        scopes_granted(granted, required),
        forall|i: int| 0 <= i < granted.len() ==> has_text(more, (#[trigger] granted[i])@),
    ensures
        scopes_granted(more, required),
{
    assert forall|i: int| 0 <= i < required.len() implies has_text(more, (#[trigger] required[i])@) by {
        let j = choose|j: int| 0 <= j < granted.len() && (#[trigger] granted[j])@ == required[i]@;
        assert(has_text(more, granted[j]@));
    }
}

/// A caller holding a configured write role passes the role gate of every tool.
pub proof fn law_write_role_passes_every_gate(held: Seq<String>, required: Seq<String>, config: Config)
    requires
        holds_any(held, config.role_requirements.write@),
    ensures
        roles_admit(held, required, config),
{
}

/// A caller holding only a read role passes read-gated tools but not write-gated ones.
pub proof fn law_read_role_is_not_write_access(held: Seq<String>, required: Seq<String>, config: Config)
    requires
        holds_any(held, config.role_requirements.read@),
        !holds_any(held, config.role_requirements.write@),
    ensures
        gate_of(required, config.scope_map) == RoleGateKind::Read ==> roles_admit(held, required, config),
        gate_of(required, config.scope_map) == RoleGateKind::Write ==> !roles_admit(held, required, config),
{
}

/// Every write, secrets or admin scope of every tool family imposes the write gate: a tool
/// that requires such a scope is gated as a write tool, and a caller holding none of the
/// configured write roles is refused by it whenever any role is configured.
pub proof fn law_write_family_scopes_need_a_write_role(
    held: Seq<String>,
    required: Seq<String>,
    config: Config,
    i: int,
)
    requires
        0 <= i < required.len(),
        ({
            let m = config.scope_map;
            let s = required[i]@;
            ||| has_text(m.users.write@, s)
            ||| has_text(m.groups.write@, s)
            ||| has_text(m.roles.write@, s)
            ||| has_text(m.clients.write@, s)
            ||| has_text(m.clients.secrets@, s)
            ||| has_text(m.client_scopes.write@, s)
            ||| has_text(m.identity_providers.write@, s)
            ||| has_text(m.realms.write@, s)
            ||| has_text(m.realms.admin@, s)
            ||| has_text(m.events.admin@, s)
        }),
    ensures
        gate_of(required, config.scope_map) == RoleGateKind::Write,
        (config.role_requirements.read@.len() > 0 || config.role_requirements.write@.len() > 0) && (forall|k: int|
            0 <= k < config.role_requirements.write@.len() ==> !has_text(
                held,
                #[trigger] config.role_requirements.write@[k]@,
            )) ==> !roles_admit(held, required, config),
        (exists|k: int|
            0 <= k < config.role_requirements.write@.len() && has_text(
                held,
                #[trigger] config.role_requirements.write@[k]@,
            )) ==> roles_admit(held, required, config),
{
    assert(is_write_scope(config.scope_map, required[i]@));
}

/// A scope listed in no family's write, secrets or admin scopes.
pub open spec fn in_no_write_list(m: ScopeMap, s: Seq<char>) -> bool {
    &&& !has_text(m.users.write@, s)
    &&& !has_text(m.groups.write@, s)
    &&& !has_text(m.roles.write@, s)
    &&& !has_text(m.clients.write@, s)
    &&& !has_text(m.clients.secrets@, s)
    &&& !has_text(m.client_scopes.write@, s)
    &&& !has_text(m.identity_providers.write@, s)
    &&& !has_text(m.realms.write@, s)
    &&& !has_text(m.realms.admin@, s)
    &&& !has_text(m.events.admin@, s)
}

/// A scope listed in no family's read scopes.
pub open spec fn in_no_read_list(m: ScopeMap, s: Seq<char>) -> bool {
    &&& !has_text(m.users.read@, s)
    &&& !has_text(m.groups.read@, s)
    &&& !has_text(m.roles.read@, s)
    &&& !has_text(m.clients.read@, s)
    &&& !has_text(m.client_scopes.read@, s)
    &&& !has_text(m.identity_providers.read@, s)
    &&& !has_text(m.realms.read@, s)
    &&& !has_text(m.events.read@, s)
    &&& !has_text(m.tokens.read@, s)
    &&& !has_text(m.observability.read@, s)
}

/// Every read scope of every tool family imposes the read gate when the tool requires no
/// write scope: a caller holding a configured read or write role passes it, a caller holding
/// neither is refused whenever any role is configured. A tool whose scopes are in no list is
/// not role-gated at all.
pub proof fn law_read_family_scopes_need_a_role(held: Seq<String>, required: Seq<String>, config: Config, i: int)
    requires
        0 <= i < required.len(),
        forall|k: int| 0 <= k < required.len() ==> in_no_write_list(config.scope_map, (#[trigger] required[k])@),
    ensures
        ({
            let m = config.scope_map;
            let s = required[i]@;
            ||| has_text(m.users.read@, s)
            ||| has_text(m.groups.read@, s)
            ||| has_text(m.roles.read@, s)
            ||| has_text(m.clients.read@, s)
            ||| has_text(m.client_scopes.read@, s)
            ||| has_text(m.identity_providers.read@, s)
            ||| has_text(m.realms.read@, s)
            ||| has_text(m.events.read@, s)
            ||| has_text(m.tokens.read@, s)
            ||| has_text(m.observability.read@, s)
        }) ==> {
            &&& gate_of(required, config.scope_map) == RoleGateKind::Read
            &&& (exists|k: int|
                0 <= k < config.role_requirements.read@.len() && has_text(
                    held,
                    #[trigger] config.role_requirements.read@[k]@,
                )) ==> roles_admit(held, required, config)
            &&& (exists|k: int|
                0 <= k < config.role_requirements.write@.len() && has_text(
                    held,
                    #[trigger] config.role_requirements.write@[k]@,
                )) ==> roles_admit(held, required, config)
            &&& (config.role_requirements.read@.len() > 0 || config.role_requirements.write@.len() > 0) && (forall|k: int|
                0 <= k < config.role_requirements.read@.len() ==> !has_text(
                    held,
                    #[trigger] config.role_requirements.read@[k]@,
                )) && (forall|k: int|
                0 <= k < config.role_requirements.write@.len() ==> !has_text(
                    held,
                    #[trigger] config.role_requirements.write@[k]@,
                )) ==> !roles_admit(held, required, config)
        },
        (forall|k: int| 0 <= k < required.len() ==> in_no_read_list(config.scope_map, (#[trigger] required[k])@))
            ==> gate_of(required, config.scope_map) == RoleGateKind::Ungated && roles_admit(held, required, config),
{
    assert forall|k: int| 0 <= k < required.len() implies !is_write_scope(config.scope_map, (#[trigger] required[k])@) by {
        assert(in_no_write_list(config.scope_map, required[k]@));
    }
    if is_read_scope(config.scope_map, required[i]@) {
        assert(exists|k: int| 0 <= k < required.len() && is_read_scope(config.scope_map, (#[trigger] required[k])@));
    }
    if forall|k: int| 0 <= k < required.len() ==> in_no_read_list(config.scope_map, (#[trigger] required[k])@) {
        assert forall|k: int| 0 <= k < required.len() implies !is_read_scope(config.scope_map, (#[trigger] required[k])@) by {
            assert(in_no_read_list(config.scope_map, required[k]@));
        }
    }
}

/// With no read or write roles configured, role gating never rejects.
pub proof fn law_unconfigured_roles_admit_all(held: Seq<String>, required: Seq<String>, config: Config)
    requires
        config.role_requirements.read@.len() == 0,
        config.role_requirements.write@.len() == 0,
    ensures
        roles_admit(held, required, config),
{
}

/// A tool that requires no scopes is never rejected by the scope check.
pub proof fn law_no_required_scopes_pass(granted: Seq<String>)
    ensures
        scopes_granted(granted, Seq::<String>::empty()),
{
}

} // verus!
