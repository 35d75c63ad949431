# kc_admin_mcp

Decision logic of a Keycloak administration tool server (MCP) that reaches the Keycloak admin
API through a security gateway, written in Verus and proved against its contracts.

## Layout

- `src/` — the verified library.
  - `auth.rs`: the scope and role checks every tool applies, with their laws.
  - `validation.rs`: realm names, UUIDs and path-traversal checks on request parameters.
  - `clients/`: client lookup (`lookup.rs`), search ranking (`search.rs`), default and optional
    scope bindings with their plans and reports (`scopes.rs`), create/update/bulk/prune rules
    (`manage.rs`), service accounts and protocol mappers (`service.rs`).
  - `realms.rs`, `events.rs`, `roles.rs`, `groups.rs`, `users.rs`, `identity_providers.rs`,
    `client_scopes.rs`, `observability.rs`, `bundles.rs`: the rules of the other tool families.
  - `json.rs`, `text.rs`, `order.rs`, `errors.rs`: JSON values, text, ordering and error values
    the contracts are stated over.
  - `outside.rs`: the trusted bindings to `regex`, `uuid`, `time` and std.
- `tests/` — tests of the library on concrete values.
- `app/` — the tool server around the library: serde copies of the argument types, the
  gateway interface, one handler per tool that sequences gateway calls and library decisions,
  and the tool catalogue with its dispatch.
