//! Clients tools: arguments, gateway representations, summaries, and the decisions the
//! clients tools make between gateway calls.
use vstd::prelude::*;
use crate::json::{JsonValue, JsonNumber, opt_text_json, opt_bool_json, jopt_str, jopt_bool};

pub mod manage;
pub mod lookup;
pub mod scopes;
pub mod search;
pub mod service;

verus! {

/// A string-to-string map as the caller sent it (entry order kept).
pub type StringMap = Vec<(String, String)>;

/// Arguments for `clients.list`.
#[derive(Debug, Clone, PartialEq)]
pub struct ClientsListArgs {
    pub realm: String,
    pub search: Option<String>,
    pub max: Option<u32>,
}

/// Arguments for `clients.get`.
#[derive(Debug, Clone, PartialEq)]
pub struct ClientsGetArgs {
    pub realm: String,
    pub id: Option<String>,
    pub client_id: Option<String>,
}

/// Arguments for `clients.search`; `query` is matched case-insensitively.
#[derive(Debug, Clone, PartialEq)]
pub struct ClientsSearchArgs {
    pub realm: String,
    pub query: String,
    pub exact: Option<bool>,
    pub limit: Option<u32>,
}

/// Arguments for `clients.create`.
#[derive(Debug, Clone, PartialEq)]
pub struct ClientsCreateArgs {
    pub realm: String,
    pub client_id: String,
    pub name: Option<String>,
    pub protocol: Option<String>,
    pub public_client: Option<bool>,
    pub service_accounts_enabled: Option<bool>,
    pub enabled: Option<bool>,
}

/// Arguments for `clients.update`.
#[derive(Debug, Clone, PartialEq)]
pub struct ClientsUpdateArgs {
    pub realm: String,
    pub id: Option<String>,
    pub client_id: Option<String>,
    pub name: Option<String>,
    pub description: Option<String>,
    pub enabled: Option<bool>,
    pub public_client: Option<bool>,
    pub service_accounts_enabled: Option<bool>,
    pub standard_flow_enabled: Option<bool>,
    pub direct_access_grants_enabled: Option<bool>,
    pub consent_required: Option<bool>,
    pub bearer_only: Option<bool>,
}

/// Arguments for `clients.delete`.
#[derive(Debug, Clone, PartialEq)]
pub struct ClientsDeleteArgs {
    pub realm: String,
    pub id: Option<String>,
    pub client_id: Option<String>,
}

/// Arguments for `clients.enable` and `clients.disable`.
#[derive(Debug, Clone, PartialEq)]
pub struct ClientsToggleArgs {
    pub realm: String,
    pub id: Option<String>,
    pub client_id: Option<String>,
}

/// Arguments for listing a client's default or optional scopes.
#[derive(Debug, Clone, PartialEq)]
pub struct ClientsScopesArgs {
    pub realm: String,
    pub id: Option<String>,
    pub client_id: Option<String>,
}

/// Arguments for adding or removing default/optional client scopes.
#[derive(Debug, Clone, PartialEq)]
pub struct ClientsScopesMutationArgs {
    pub realm: String,
    pub id: Option<String>,
    pub client_id: Option<String>,
    pub scope_id: Option<String>,
    pub scope_ids: Option<Vec<String>>,
    pub scope_name: Option<String>,
    pub scope_names: Option<Vec<String>>,
    pub dry_run: Option<bool>,
}

/// Arguments for scope binding checks.
#[derive(Debug, Clone, PartialEq)]
pub struct ClientsScopeBindingArgs {
    pub realm: String,
    pub id: Option<String>,
    pub client_id: Option<String>,
    pub scope: String,
}

/// Arguments for scope ensure operations.
#[derive(Debug, Clone, PartialEq)]
pub struct ClientsScopeEnsureArgs {
    pub realm: String,
    pub id: Option<String>,
    pub client_id: Option<String>,
    pub scope: String,
    pub ensure: Option<bool>,
    pub dry_run: Option<bool>,
}

/// Arguments for replacing all default or optional client scopes.
#[derive(Debug, Clone, PartialEq)]
pub struct ClientsScopesReplaceArgs {
    pub realm: String,
    pub id: Option<String>,
    pub client_id: Option<String>,
    pub scope_id: Option<String>,
    pub scope_ids: Option<Vec<String>>,
    pub scope_name: Option<String>,
    pub scope_names: Option<Vec<String>>,
    pub confirm: bool,
    pub dry_run: Option<bool>,
    pub allow_empty: Option<bool>,
}

/// Arguments for `clients.protocol_mappers.list`.
#[derive(Debug, Clone, PartialEq)]
pub struct ClientsProtocolMapperListArgs {
    pub realm: String,
    pub id: Option<String>,
    pub client_id: Option<String>,
    pub include_config: Option<bool>,
}

/// Arguments for `clients.protocol_mappers.add`.
#[derive(Debug, Clone, PartialEq)]
pub struct ClientsProtocolMapperAddArgs {
    pub realm: String,
    pub id: Option<String>,
    pub client_id: Option<String>,
    pub name: String,
    pub protocol: String,
    pub protocol_mapper: String,
    pub config: Option<StringMap>,
    pub consent_required: Option<bool>,
    pub consent_text: Option<String>,
}

/// Arguments for `clients.protocol_mappers.delete`.
#[derive(Debug, Clone, PartialEq)]
pub struct ClientsProtocolMapperDeleteArgs {
    pub realm: String,
    pub id: Option<String>,
    pub client_id: Option<String>,
    pub mapper_id: String,
}

/// Arguments for `clients.redirect_uris.update`.
#[derive(Debug, Clone, PartialEq)]
pub struct ClientsRedirectUrisArgs {
    pub realm: String,
    pub id: Option<String>,
    pub client_id: Option<String>,
    pub redirect_uris: Vec<String>,
}

/// Arguments for `clients.scope_mappings.realm.add` and `.delete`.
#[derive(Debug, Clone, PartialEq)]
pub struct ClientsScopeMappingsRealmModifyArgs {
    pub realm: String,
    pub id: Option<String>,
    pub client_id: Option<String>,
    pub role_names: Option<Vec<String>>,
}

/// Arguments for `clients.scope_mappings.client`.
#[derive(Debug, Clone, PartialEq)]
pub struct ClientsScopeMappingsClientArgs {
    pub realm: String,
    pub id: Option<String>,
    pub client_id: Option<String>,
    pub role_client_id: Option<String>,
    pub role_client_unique_id: Option<String>,
}

/// Arguments for `clients.scope_mappings.client.add` and `.delete`.
#[derive(Debug, Clone, PartialEq)]
pub struct ClientsScopeMappingsClientModifyArgs {
    pub realm: String,
    pub id: Option<String>,
    pub client_id: Option<String>,
    pub role_client_id: Option<String>,
    pub role_client_unique_id: Option<String>,
    pub role_names: Option<Vec<String>>,
}

/// Arguments for `clients.service_account.roles`.
#[derive(Debug, Clone, PartialEq)]
pub struct ClientsServiceAccountArgs {
    pub realm: String,
    pub id: Option<String>,
    pub client_id: Option<String>,
}

/// Arguments for service-account realm role mutations.
#[derive(Debug, Clone, PartialEq)]
pub struct ClientsServiceAccountRealmArgs {
    pub realm: String,
    pub id: Option<String>,
    pub client_id: Option<String>,
    pub role_names: Option<Vec<String>>,
}

/// Arguments for service-account client role mutations.
#[derive(Debug, Clone, PartialEq)]
pub struct ClientsServiceAccountClientArgs {
    pub realm: String,
    pub id: Option<String>,
    pub client_id: Option<String>,
    pub role_client_id: Option<String>,
    pub role_client_unique_id: Option<String>,
    pub role_names: Option<Vec<String>>,
}

/// Arguments for `clients.secrets.get`.
#[derive(Debug, Clone, PartialEq)]
pub struct ClientsSecretArgs {
    pub realm: String,
    pub id: Option<String>,
    pub client_id: Option<String>,
}

/// Arguments for `clients.secrets.rotate`.
#[derive(Debug, Clone, PartialEq)]
pub struct ClientsSecretRotateArgs {
    pub realm: String,
    pub id: Option<String>,
    pub client_id: Option<String>,
    pub confirm: bool,
}

/// Arguments for `clients.introspection.create`.
#[derive(Debug, Clone, PartialEq)]
pub struct ClientsIntrospectionCreateArgs {
    pub realm: String,
    pub client_id: String,
    pub name: Option<String>,
    pub confirm: bool,
}

/// Per-client update payload for `clients.bulk_update`.
#[derive(Debug, Clone, PartialEq)]
pub struct ClientsBulkUpdateItem {
    pub id: Option<String>,
    pub client_id: Option<String>,
    pub name: Option<String>,
    pub description: Option<String>,
    pub enabled: Option<bool>,
    pub public_client: Option<bool>,
    pub service_accounts_enabled: Option<bool>,
    pub standard_flow_enabled: Option<bool>,
    pub direct_access_grants_enabled: Option<bool>,
    pub consent_required: Option<bool>,
    pub bearer_only: Option<bool>,
}

/// Arguments for `clients.bulk_update`.
#[derive(Debug, Clone, PartialEq)]
pub struct ClientsBulkUpdateArgs {
    pub realm: String,
    pub confirm: bool,
    pub dry_run: Option<bool>,
    pub updates: Vec<ClientsBulkUpdateItem>,
}

/// Prune action for `clients.prune`.
#[derive(Debug, Clone, Copy, PartialEq, Eq, Structural)]
pub enum ClientsPruneAction {
    Disable,
    Delete,
}

/// Arguments for `clients.prune`.
#[derive(Debug, Clone, PartialEq)]
pub struct ClientsPruneArgs {
    pub realm: String,
    pub confirm: bool,
    pub dry_run: Option<bool>,
    pub action: Option<ClientsPruneAction>,
    pub search: Option<String>,
    pub name: Option<String>,
    pub client_id_prefix: Option<String>,
    pub client_id_pattern: Option<String>,
    pub exclude_client_ids: Option<Vec<String>>,
    pub max: Option<u32>,
    pub limit: Option<u32>,
}

/// A client as the Keycloak admin API returns it (the fields the tools read).
#[derive(Debug, Clone, PartialEq)]
pub struct ClientRepresentation {
    pub id: Option<String>,
    pub client_id: Option<String>,
    pub name: Option<String>,
    pub enabled: Option<bool>,
    pub protocol: Option<String>,
    pub public_client: Option<bool>,
    pub created_timestamp: Option<i64>,
    pub service_accounts_enabled: Option<bool>,
}

/// A client scope as the Keycloak admin API returns it.
#[derive(Debug, Clone, PartialEq)]
pub struct ClientScopeRepresentation {
    pub id: Option<String>,
    pub name: Option<String>,
    pub protocol: Option<String>,
    pub description: Option<String>,
}

/// A role as the Keycloak admin API returns it.
#[derive(Debug, Clone, PartialEq)]
pub struct RoleRepresentation {
    pub id: Option<String>,
    pub name: Option<String>,
    pub description: Option<String>,
    pub composite: Option<bool>,
    pub client_role: Option<bool>,
    pub container_id: Option<String>,
}

/// A client as the tools report it; `keycloak_id` repeats `id` so that callers do not
/// confuse the internal identifier with `client_id`.
#[derive(Debug, Clone, PartialEq)]
pub struct ClientSummary {
    pub id: Option<String>,
    pub keycloak_id: Option<String>,
    pub client_id: Option<String>,
    pub name: Option<String>,
    pub enabled: Option<bool>,
    pub protocol: Option<String>,
    pub created_at: Option<i64>,
    pub public_client: Option<bool>,
    pub service_accounts_enabled: Option<bool>,
}

/// A client scope as the tools report it.
#[derive(Debug, Clone, PartialEq)]
pub struct ClientScopeSummary {
    pub id: Option<String>,
    pub name: Option<String>,
    pub protocol: Option<String>,
    pub description: Option<String>,
}

impl ClientSummary {
    /// The summary of a client representation.
    pub open spec fn of(value: ClientRepresentation) -> ClientSummary {
        ClientSummary {
            id: value.id,
            keycloak_id: value.id,
            client_id: value.client_id,
            name: value.name,
            enabled: value.enabled,
            protocol: value.protocol,
            created_at: value.created_timestamp,
            public_client: value.public_client,
            service_accounts_enabled: value.service_accounts_enabled,
        }
    }

    /// A field-by-field copy.
    pub fn copied(&self) -> (r: ClientSummary)
        ensures
            r == *self,
    {
        ClientSummary {
            id: self.id.clone(),
            keycloak_id: self.keycloak_id.clone(),
            client_id: self.client_id.clone(),
            name: self.name.clone(),
            enabled: self.enabled,
            protocol: self.protocol.clone(),
            created_at: self.created_at,
            public_client: self.public_client,
            service_accounts_enabled: self.service_accounts_enabled,
        }
    }

    /// Summarizes a client representation.
    pub fn from_representation(value: ClientRepresentation) -> (s: ClientSummary)
        ensures
            s == ClientSummary::of(value),
    {
        let keycloak_id = value.id.clone();
        ClientSummary {
            id: value.id,
            keycloak_id,
            client_id: value.client_id,
            name: value.name,
            enabled: value.enabled,
            protocol: value.protocol,
            created_at: value.created_timestamp,
            public_client: value.public_client,
            service_accounts_enabled: value.service_accounts_enabled,
        }
    }
}

impl ClientScopeSummary {
    /// Summarizes a client scope representation.
    pub fn from_representation(value: ClientScopeRepresentation) -> (s: ClientScopeSummary)
        ensures
            s.id == value.id,
            s.name == value.name,
            s.protocol == value.protocol,
            s.description == value.description,
    {
        ClientScopeSummary {
            id: value.id,
            name: value.name,
            protocol: value.protocol,
            description: value.description,
        }
    }
}

} // verus!
