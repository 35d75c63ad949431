//! Role tools: arguments, and resolving role names to role representations (recording the
//! names that do not resolve).
use vstd::prelude::*;
use crate::clients::RoleRepresentation;
use crate::errors::{bare, ToolError, tool_error};
use crate::text::{join_strings, joined, string_views};
use crate::json::{JsonValue, entry_views, field, get_field, opt_text_json, string_text, with_entry};

verus! {

/// Arguments for `roles.list`.
#[derive(Debug, Clone, PartialEq)]
pub struct RolesListArgs {
    pub realm: String,
    pub search: Option<String>,
    pub max: Option<u32>,
}

/// Arguments for `roles.get`.
#[derive(Debug, Clone, PartialEq)]
pub struct RolesGetArgs {
    pub realm: String,
    pub name: String,
}

/// Arguments for `roles.create`.
#[derive(Debug, Clone, PartialEq)]
pub struct RolesCreateArgs {
    pub realm: String,
    pub name: String,
    pub description: Option<String>,
    pub composite: Option<bool>,
}

/// Arguments for `roles.delete`.
#[derive(Debug, Clone, PartialEq)]
pub struct RolesDeleteArgs {
    pub realm: String,
    pub name: String,
}

/// Arguments for `roles.users.list`.
#[derive(Debug, Clone, PartialEq)]
pub struct RolesListUsersArgs {
    pub realm: String,
    pub name: String,
    pub first: Option<u32>,
    pub max: Option<u32>,
    pub brief_representation: Option<bool>,
}

/// Arguments for adding or removing composite roles.
#[derive(Debug, Clone, PartialEq)]
pub struct RolesCompositeArgs {
    pub realm: String,
    pub name: String,
    pub role_names: Option<Vec<String>>,
}

/// The role names of a request; none given, or an empty list, is refused with `code` and
/// `message`.
pub fn require_role_names(role_names: Option<Vec<String>>, code: &str, message: &str, request_id: &str) -> (r: Result<
    Vec<String>,
    ToolError,
>)
    ensures
        r is Ok <==> (role_names matches Some(v) && v@.len() > 0),
        r matches Ok(v) ==> role_names == Some(v),
        r matches Err(e) ==> e.code@ == code@ && e.message@ == message@ && e.request_id@ == request_id@ && bare(e),
{
    match role_names {
        Some(v) => {
            if v.len() == 0 {
                return Err(tool_error(code, message, request_id));
            }
            Ok(v)
        },
        None => Err(tool_error(code, message, request_id)),
    }
}

/// A role the gateway returned with both an id and a name.
pub open spec fn role_complete(r: RoleRepresentation) -> bool {
    r.id is Some && r.name is Some
}

/// Role names resolved so far: the roles found, and the names that did not resolve.
#[derive(Debug, PartialEq)]
pub struct ResolveRolesResult {
    pub roles: Vec<RoleRepresentation>,
    pub missing: Vec<String>,
}

/// The message listing role names that did not resolve.
pub open spec fn missing_roles_message(missing: Seq<String>) -> Seq<char> {
    "Missing roles: "@ + joined(string_views(missing), ", "@)
}

impl ResolveRolesResult {
    /// Nothing resolved yet.
    pub fn new() -> (r: ResolveRolesResult)
        ensures
            r.roles@.len() == 0 && r.missing@.len() == 0,
    {
        ResolveRolesResult { roles: Vec::new(), missing: Vec::new() }
    }

    /// Records what the gateway returned for `role_name`: a complete role is kept, otherwise
    /// the name is missing.
    pub fn record(&mut self, role_name: &String, role: RoleRepresentation)
        ensures
            role_complete(role) ==> final(self).roles@ == old(self).roles@.push(role) && final(self).missing
                == old(self).missing,
            !role_complete(role) ==> final(self).roles == old(self).roles && final(self).missing@ == old(
                self,
            ).missing@.push(*role_name),
    {
        if role.id.is_some() && role.name.is_some() {
            self.roles.push(role);
        } else {
            self.missing.push(role_name.clone());
        }
    }

    /// Refuses when some role names did not resolve (`code` names the tool family).
    pub fn require_all_found(&self, code: &str, request_id: &str) -> (r: Result<(), ToolError>)
        ensures
            r is Ok <==> self.missing@.len() == 0,
            r matches Err(e) ==> e.code@ == code@ && e.message@ == missing_roles_message(self.missing@)
                && e.request_id@ == request_id@ && bare(e),
    {
        if self.missing.len() == 0 {
            return Ok(());
        }
        let mut message = String::from_str("Missing roles: ");
        let list = join_strings(&self.missing, ", ");
        message.append(list.as_str());
        Err(tool_error(code, message.as_str(), request_id))
    }
}

/// Refuses a composite role change when a resolved role lacks an id or a name.
pub fn require_complete_role(role: &RoleRepresentation, request_id: &str) -> (r: Result<(), ToolError>)
    ensures
        r is Ok <==> role_complete(*role),
        r matches Err(e) ==> e.code@ == "roles.invalid_payload"@ && e.message@ == "Resolved role missing id or name."@
            && e.request_id@ == request_id@ && bare(e),
{
    if role.id.is_none() || role.name.is_none() {
        return Err(tool_error("roles.invalid_payload", "Resolved role missing id or name.", request_id));
    }
    Ok(())
}

/// The body that creates a realm role: `name`, `description` (null when absent) and
/// `composite` (by default false).
pub fn role_create_body(args: &RolesCreateArgs) -> (v: JsonValue)
    ensures
        v matches JsonValue::Object(e) && entry_views(e@) == seq![
            ("name"@, JsonValue::String(args.name)),
            ("description"@, opt_text_json(args.description)),
            ("composite"@, JsonValue::Bool(args.composite.unwrap_or(false))),
        ],
{
    let e: Vec<(String, JsonValue)> = Vec::new();
    let e = with_entry(e, "name", JsonValue::String(args.name.clone()));
    let e = with_entry(e, "description", crate::json::jopt_str(&args.description));
    let e = with_entry(e, "composite", JsonValue::Bool(args.composite.unwrap_or(false)));
    JsonValue::Object(e)
}

/// The name a role creation reports: the `roleName` member of the gateway's answer when it
/// has one, else its `name` member; the requested name when that member is absent or is not
/// a string.
pub open spec fn reported_role_name(payload: JsonValue, requested: Seq<char>) -> Seq<char> {
    let member = match field(payload, "roleName"@) {
        Some(v) => Some(v),
        None => field(payload, "name"@),
    };
    match member {
        Some(v) => match string_text(v) {
            Some(t) => t,
            None => requested,
        },
        None => requested,
    }
}

/// Reads the name of a created role from the gateway's answer.
pub fn created_role_name(payload: &JsonValue, requested: &str) -> (r: String)
    ensures
        r@ == reported_role_name(*payload, requested@),
{
    let member = match get_field(payload, "roleName") {
        Some(v) => Some(v),
        None => get_field(payload, "name"),
    };
    match member {
        Some(JsonValue::String(t)) => t.clone(),
        _ => requested.to_owned(),
    }
}

} // verus!
