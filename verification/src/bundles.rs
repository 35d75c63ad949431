//! The tool bundles: the canonical grouping of the tools, so that an orchestrator can grant
//! an agent only the tools of the bundles its task needs. The registry is informational: it
//! does not bypass scope checks.
use vstd::prelude::*;

verus! {

/// A named group of tools.
#[derive(Debug, Clone, PartialEq)]
pub struct ToolBundle {
    pub name: String,
    pub description: String,
    pub tools: Vec<String>,
}

/// The views of a list of strings.
pub open spec fn texts(v: Seq<String>) -> Seq<Seq<char>> {
    Seq::new(v.len(), |i: int| v[i]@)
}

/// The bundles as (name, description, tools), in order.
pub open spec fn bundle_registry() -> Seq<(Seq<char>, Seq<char>, Seq<Seq<char>>)> {
    seq![
        ("users"@, "User lifecycle management, sessions, and group/role memberships."@, seq!["users.list"@, "users.get"@, "users.create"@, "users.delete"@, "users.reset_password"@, "users.required_actions.set"@, "users.groups.list"@, "users.groups.add"@, "users.groups.remove"@, "users.role_mappings.realm"@, "users.role_mappings.clients"@, "users.consent.list"@, "users.sessions.list"@, "users.sessions.logout"@]),
        ("groups"@, "Realm-level group hierarchy and member management."@, seq!["groups.list"@, "groups.get"@, "groups.create"@, "groups.delete"@, "groups.members.list"@, "groups.role_mappings.realm"@, "groups.role_mappings.clients"@]),
        ("clients"@, "OIDC/SAML client registration, configuration, and secret management."@, seq!["clients.list"@, "clients.get"@, "clients.create"@, "clients.update"@, "clients.delete"@, "clients.secret.get"@, "clients.secret.regenerate"@, "clients.service_account_user.get"@]),
        ("client_scopes"@, "Management of shared client scopes and protocol mappers."@, seq!["client_scopes.list"@, "client_scopes.get"@, "client_scopes.create"@, "client_scopes.delete"@]),
        ("roles"@, "Realm and client-level role definitions."@, seq!["roles.realm.list"@, "roles.realm.get"@, "roles.realm.create"@, "roles.realm.delete"@, "roles.client.list"@, "roles.client.get"@, "roles.client.create"@, "roles.client.delete"@]),
        ("realms"@, "Realm configuration and management."@, seq!["realms.list"@, "realms.get"@, "realms.create"@, "realms.delete"@]),
        ("identity_providers"@, "External OIDC/SAML identity provider configuration."@, seq!["identity_providers.list"@, "identity_providers.get"@, "identity_providers.create"@, "identity_providers.delete"@]),
        ("events"@, "Audit and user event logging configuration."@, seq!["events.config.get"@, "events.config.update"@, "events.admin.list"@, "events.user.list"@]),
        ("observability"@, "Server health and uptime metrics."@, seq!["observability.health"@, "observability.uptime"@]),
    ]
}

/// The bundle's content as (name, description, tools).
pub open spec fn bundle_view(b: ToolBundle) -> (Seq<char>, Seq<char>, Seq<Seq<char>>) {
    (b.name@, b.description@, texts(b.tools@))
}

fn bundle(name: &str, description: &str, tools: &[&str]) -> (b: ToolBundle)
    ensures
        b.name@ == name@,
        b.description@ == description@,
        texts(b.tools@) == Seq::new(tools@.len(), |i: int| tools@[i]@),
{
    let mut v: Vec<String> = Vec::new();
    let n = tools.len();
    for i in 0..n
        invariant
            n == tools@.len(),
            texts(v@) == Seq::new(i as nat, |k: int| tools@[k]@),
    {
        let t: &str = tools[i];
        let owned = String::from_str(t);
        assert(owned@ == tools@[i as int]@);
        let ghost before = v@;
        v.push(owned);
        assert(texts(v@) =~= texts(before).push(tools@[i as int]@));
        assert(texts(v@) =~= Seq::new((i + 1) as nat, |k: int| tools@[k]@));
    }
    ToolBundle { name: name.to_owned(), description: description.to_owned(), tools: v }
}

/// The tool bundles, in order.
pub fn tool_bundles() -> (r: Vec<ToolBundle>)
    ensures
        r@.len() == bundle_registry().len(),
        forall|i: int| 0 <= i < r@.len() ==> bundle_view(#[trigger] r@[i]) == bundle_registry()[i],
{
    let mut r: Vec<ToolBundle> = Vec::new();
    {
        let tools: [&str; 14] = ["users.list", "users.get", "users.create", "users.delete", "users.reset_password", "users.required_actions.set", "users.groups.list", "users.groups.add", "users.groups.remove", "users.role_mappings.realm", "users.role_mappings.clients", "users.consent.list", "users.sessions.list", "users.sessions.logout"];
        let b = bundle("users", "User lifecycle management, sessions, and group/role memberships.", &tools);
        assert(Seq::new(tools@.len(), |i: int| tools@[i]@) =~= bundle_registry()[0].2);
        r.push(b);
    }
    {
        let tools: [&str; 7] = ["groups.list", "groups.get", "groups.create", "groups.delete", "groups.members.list", "groups.role_mappings.realm", "groups.role_mappings.clients"];
        let b = bundle("groups", "Realm-level group hierarchy and member management.", &tools);
        assert(Seq::new(tools@.len(), |i: int| tools@[i]@) =~= bundle_registry()[1].2);
        r.push(b);
    }
    {
        let tools: [&str; 8] = ["clients.list", "clients.get", "clients.create", "clients.update", "clients.delete", "clients.secret.get", "clients.secret.regenerate", "clients.service_account_user.get"];
        let b = bundle("clients", "OIDC/SAML client registration, configuration, and secret management.", &tools);
        assert(Seq::new(tools@.len(), |i: int| tools@[i]@) =~= bundle_registry()[2].2);
        r.push(b);
    }
    {
        let tools: [&str; 4] = ["client_scopes.list", "client_scopes.get", "client_scopes.create", "client_scopes.delete"];
        let b = bundle("client_scopes", "Management of shared client scopes and protocol mappers.", &tools);
        assert(Seq::new(tools@.len(), |i: int| tools@[i]@) =~= bundle_registry()[3].2);
        r.push(b);
    }
    {
        let tools: [&str; 8] = ["roles.realm.list", "roles.realm.get", "roles.realm.create", "roles.realm.delete", "roles.client.list", "roles.client.get", "roles.client.create", "roles.client.delete"];
        let b = bundle("roles", "Realm and client-level role definitions.", &tools);
        assert(Seq::new(tools@.len(), |i: int| tools@[i]@) =~= bundle_registry()[4].2);
        r.push(b);
    }
    {
        let tools: [&str; 4] = ["realms.list", "realms.get", "realms.create", "realms.delete"];
        let b = bundle("realms", "Realm configuration and management.", &tools);
        assert(Seq::new(tools@.len(), |i: int| tools@[i]@) =~= bundle_registry()[5].2);
        r.push(b);
    }
    {
        let tools: [&str; 4] = ["identity_providers.list", "identity_providers.get", "identity_providers.create", "identity_providers.delete"];
        let b = bundle("identity_providers", "External OIDC/SAML identity provider configuration.", &tools);
        assert(Seq::new(tools@.len(), |i: int| tools@[i]@) =~= bundle_registry()[6].2);
        r.push(b);
    }
    {
        let tools: [&str; 4] = ["events.config.get", "events.config.update", "events.admin.list", "events.user.list"];
        let b = bundle("events", "Audit and user event logging configuration.", &tools);
        assert(Seq::new(tools@.len(), |i: int| tools@[i]@) =~= bundle_registry()[7].2);
        r.push(b);
    }
    {
        let tools: [&str; 2] = ["observability.health", "observability.uptime"];
        let b = bundle("observability", "Server health and uptime metrics.", &tools);
        assert(Seq::new(tools@.len(), |i: int| tools@[i]@) =~= bundle_registry()[8].2);
        r.push(b);
    }
    r
}

} // verus!
