//! User tools: arguments, the checks of create and password reset requests, and their bodies.
use vstd::prelude::*;
use crate::errors::{bare, McpError, ToolError, tool_error, INVALID_PARAMS};
use crate::json::{
    JsonValue, entries_index, entry_views, field, field_text, get_field_str, opt_text_json, string_text, with_entry,
};
use crate::text::{trim, trimmed};
use crate::validation::{
    has_path_traversal, realm_error_message, traversal_message, valid_realm_name,
    validate_no_path_traversal, validate_realm_name,
};

verus! {

/// Arguments for `users.list`.
#[derive(Debug, Clone, PartialEq)]
pub struct UsersListArgs {
    pub realm: String,
    pub search: Option<String>,
    pub max: Option<u32>,
}

/// Arguments for `users.get`.
#[derive(Debug, Clone, PartialEq)]
pub struct UsersGetArgs {
    pub realm: String,
    pub user_id: String,
}

/// Arguments for `users.create`.
#[derive(Debug, Clone, PartialEq)]
pub struct UsersCreateArgs {
    pub realm: String,
    pub username: String,
    pub email: Option<String>,
    pub first_name: Option<String>,
    pub last_name: Option<String>,
    pub enabled: Option<bool>,
}

/// Arguments for `users.delete`.
#[derive(Debug, Clone, PartialEq)]
pub struct UsersDeleteArgs {
    pub realm: String,
    pub user_id: String,
}

/// Arguments for `users.reset_password`.
#[derive(Debug, Clone, PartialEq)]
pub struct UsersResetPasswordArgs {
    pub realm: String,
    pub user_id: String,
    pub new_password: String,
    pub temporary: Option<bool>,
}

/// Arguments for `users.required_actions.set`.
#[derive(Debug, Clone, PartialEq)]
pub struct UsersRequiredActionsArgs {
    pub realm: String,
    pub user_id: String,
    pub actions: Vec<String>,
}

/// Arguments for `users.groups.list`.
#[derive(Debug, Clone, PartialEq)]
pub struct UsersGroupsListArgs {
    pub realm: String,
    pub user_id: String,
    pub brief_representation: Option<bool>,
}

/// Arguments for adding a user to, or removing a user from, a group.
#[derive(Debug, Clone, PartialEq)]
pub struct UsersGroupModifyArgs {
    pub realm: String,
    pub user_id: String,
    pub group_id: String,
}

/// The first check a user create request fails, as its message: the realm, then the username.
pub open spec fn user_create_error(a: UsersCreateArgs) -> Option<Seq<char>> {
    if !valid_realm_name(a.realm@) {
        Some(realm_error_message(a.realm@))
    } else if has_path_traversal(a.username@) {
        Some(traversal_message("username"@))
    } else {
        None
    }
}

/// Validates a user create request.
pub fn validate_user_create(args: &UsersCreateArgs) -> (r: Result<(), McpError>)
    ensures
        r is Ok <==> user_create_error(*args) is None,
        r matches Err(e) ==> e.code == INVALID_PARAMS && e.data is None && user_create_error(*args) == Some(
            e.message@,
        ),
{
    validate_realm_name(args.realm.as_str())?;
    validate_no_path_traversal(args.username.as_str(), "username")
}

/// The body that creates a user: `username`, `email`, `firstName`, `lastName` (null when
/// absent) and `enabled` (by default true).
pub fn user_create_body(args: &UsersCreateArgs) -> (v: JsonValue)
    ensures
        v matches JsonValue::Object(e) && entry_views(e@) == seq![
            ("username"@, JsonValue::String(args.username)),
            ("email"@, opt_text_json(args.email)),
            ("firstName"@, opt_text_json(args.first_name)),
            ("lastName"@, opt_text_json(args.last_name)),
            ("enabled"@, JsonValue::Bool(args.enabled.unwrap_or(true))),
        ],
{
    let e: Vec<(String, JsonValue)> = Vec::new();
    assert(entry_views(e@) =~= Seq::<(Seq<char>, JsonValue)>::empty());
    let e = with_entry(e, "username", JsonValue::String(args.username.clone()));
    let e = with_entry(e, "email", crate::json::jopt_str(&args.email));
    let e = with_entry(e, "firstName", crate::json::jopt_str(&args.first_name));
    let e = with_entry(e, "lastName", crate::json::jopt_str(&args.last_name));
    let e = with_entry(e, "enabled", JsonValue::Bool(args.enabled.unwrap_or(true)));
    assert(entry_views(e@) =~= seq![
        ("username"@, JsonValue::String(args.username)),
        ("email"@, opt_text_json(args.email)),
        ("firstName"@, opt_text_json(args.first_name)),
        ("lastName"@, opt_text_json(args.last_name)),
        ("enabled"@, JsonValue::Bool(args.enabled.unwrap_or(true))),
    ]);
    JsonValue::Object(e)
}

/// The body of a password reset: a `password` credential with the new value, temporary unless
/// stated otherwise. A blank password is refused.
pub fn reset_password_body(args: &UsersResetPasswordArgs, request_id: &str) -> (r: Result<JsonValue, ToolError>)
    ensures
        r is Err <==> trimmed(args.new_password@).len() == 0,
        r matches Err(e) ==> e.code@ == "users.reset_password.invalid_password"@ && e.message@
            == "new_password is required."@ && e.request_id@ == request_id@ && bare(e),
        r matches Ok(v) ==> (v matches JsonValue::Object(e) && entry_views(e@).len() == 3 && entry_views(e@)[0].0
            == "type"@ && string_text(entry_views(e@)[0].1) == Some("password"@) && entry_views(e@)[1] == (
            "value"@,
            JsonValue::String(args.new_password),
        ) && entry_views(e@)[2] == ("temporary"@, JsonValue::Bool(args.temporary.unwrap_or(true)))),
{
    let t = trim(args.new_password.as_str());
    if t.as_str().is_empty() {
        return Err(tool_error("users.reset_password.invalid_password", "new_password is required.", request_id));
    }
    let e: Vec<(String, JsonValue)> = Vec::new();
    assert(entry_views(e@) =~= Seq::<(Seq<char>, JsonValue)>::empty());
    let e = with_entry(e, "type", JsonValue::String(String::from_str("password")));
    let e = with_entry(e, "value", JsonValue::String(args.new_password.clone()));
    let e = with_entry(e, "temporary", JsonValue::Bool(args.temporary.unwrap_or(true)));
    Ok(JsonValue::Object(e))
}


/// The members of an optional object value (none when it is absent or not an object).
pub open spec fn members_of(v: Option<JsonValue>) -> Seq<(String, JsonValue)> {
    match v {
        Some(JsonValue::Object(e)) => e@,
        _ => Seq::empty(),
    }
}

/// The items of an optional array value (none when it is absent or not an array).
pub open spec fn items_of(v: Option<JsonValue>) -> Seq<JsonValue> {
    match v {
        Some(JsonValue::Array(a)) => a@,
        _ => Seq::empty(),
    }
}

/// A client's role mappings as listed for a user: the client's `clientId`, its name, and the
/// role values mapped to the user.
#[derive(Debug, PartialEq)]
pub struct ClientRoleMappings {
    pub client_id: String,
    pub client_name: Option<String>,
    pub roles: Vec<JsonValue>,
}

/// `r` reports the member `key` of `clientMappings` with the value `mapping`: its name is the
/// string member `client`, its roles the items of the array member `mappings`.
pub open spec fn reports_client_mapping(r: ClientRoleMappings, key: String, mapping: JsonValue) -> bool {
    &&& r.client_id == key
    &&& match r.client_name {
        Some(n) => field_text(mapping, "client"@) == Some(n@),
        None => field_text(mapping, "client"@) is None,
    }
    &&& r.roles@ == items_of(field(mapping, "mappings"@))
}

/// Takes the member `key` out of an object value.
fn take_member(v: JsonValue, key: &str) -> (r: Option<JsonValue>)
    ensures
        r == field(v, key@),
{
    match v {
        JsonValue::Object(entries) => {
            let mut entries = entries;
            match entries_index(&entries, key) {
                Some(i) => {
                    let (_, x) = entries.remove(i);
                    Some(x)
                },
                None => None,
            }
        },
        _ => None,
    }
}

/// The client role mappings of a user's role-mapping listing: one per member of its
/// `clientMappings` object, in order (none when that member is absent or not an object).
pub fn client_role_mappings(payload: JsonValue) -> (r: Vec<ClientRoleMappings>)
    ensures
        r@.len() == members_of(field(payload, "clientMappings"@)).len(),
        forall|i: int|
            0 <= i < r@.len() ==> reports_client_mapping(
                #[trigger] r@[i],
                members_of(field(payload, "clientMappings"@))[i].0,
                members_of(field(payload, "clientMappings"@))[i].1,
            ),
{
    let ghost all = members_of(field(payload, "clientMappings"@));
    let mut entries: Vec<(String, JsonValue)> = match take_member(payload, "clientMappings") {
        Some(JsonValue::Object(e)) => e,
        _ => Vec::new(),
    };
    let mut out: Vec<ClientRoleMappings> = Vec::new();
    let n = entries.len();
    assert(entries@ =~= all.subrange(0, n as int));
    while entries.len() > 0
        invariant
            n == all.len(),
            out@.len() + entries@.len() == n,
            entries@ == all.subrange(out@.len() as int, n as int),
            forall|i: int| 0 <= i < out@.len() ==> reports_client_mapping(#[trigger] out@[i], all[i].0, all[i].1),
        decreases entries@.len(),
    {
        let ghost k = out@.len() as int;
        let (client_id, mapping) = entries.remove(0);
        assert(entries@ =~= all.subrange(k + 1, n as int));
        let client_name = match get_field_str(&mapping, "client") {
            Some(s) => Some(s.clone()),
            None => None,
        };
        let roles = match take_member(mapping, "mappings") {
            Some(JsonValue::Array(a)) => a,
            _ => Vec::new(),
        };
        out.push(ClientRoleMappings { client_id, client_name, roles });
    }
    out
}

} // verus!
