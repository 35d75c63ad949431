//! Verified decision logic for a Keycloak administration tool server.
pub mod auth;
pub mod bundles;
pub mod client_scopes;
pub mod clients;
pub mod errors;
pub mod events;
pub mod groups;
pub mod identity_providers;
pub mod json;
pub mod observability;
pub mod order;
pub mod realms;
pub mod roles;
pub mod outside;
pub mod text;
pub mod users;
pub mod validation;
