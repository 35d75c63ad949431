//! Group tools: arguments, and finding the client a group role request names.
use vstd::prelude::*;
use crate::clients::ClientRepresentation;
use crate::text::str_eq;

verus! {

/// Arguments for `groups.list`.
#[derive(Debug, Clone, PartialEq)]
pub struct GroupsListArgs {
    pub realm: String,
    pub search: Option<String>,
}

/// Arguments for `groups.get`.
#[derive(Debug, Clone, PartialEq)]
pub struct GroupsGetArgs {
    pub realm: String,
    pub group_id: String,
}

/// Arguments for `groups.create`.
#[derive(Debug, Clone, PartialEq)]
pub struct GroupsCreateArgs {
    pub realm: String,
    pub name: String,
    pub parent_id: Option<String>,
}

/// Arguments for `groups.members.list`.
#[derive(Debug, Clone, PartialEq)]
pub struct GroupsMembersListArgs {
    pub realm: String,
    pub group_id: String,
    pub first: Option<u32>,
    pub max: Option<u32>,
    pub brief_representation: Option<bool>,
}

/// Arguments for `groups.delete`.
#[derive(Debug, Clone, PartialEq)]
pub struct GroupsDeleteArgs {
    pub realm: String,
    pub group_id: String,
}

/// Arguments for changing a group's realm roles.
#[derive(Debug, Clone, PartialEq)]
pub struct GroupRolesRealmArgs {
    pub realm: String,
    pub group_id: String,
    pub role_names: Option<Vec<String>>,
}

/// Arguments for listing a group's client roles.
#[derive(Debug, Clone, PartialEq)]
pub struct GroupRolesClientArgs {
    pub realm: String,
    pub group_id: String,
    pub client_id: Option<String>,
    pub client_unique_id: Option<String>,
}

/// Arguments for changing a group's client roles.
#[derive(Debug, Clone, PartialEq)]
pub struct GroupRolesClientModifyArgs {
    pub realm: String,
    pub group_id: String,
    pub client_id: Option<String>,
    pub client_unique_id: Option<String>,
    pub role_names: Option<Vec<String>>,
}

/// The text of an optional string.
pub open spec fn opt_view(o: Option<String>) -> Option<Seq<char>> {
    match o {
        Some(s) => Some(s@),
        None => None,
    }
}

/// The internal id of the first listed client whose `clientId` is `client_id` (`None` when
/// that client has no id, or no client matches).
pub open spec fn first_client_match(clients: Seq<ClientRepresentation>, client_id: Seq<char>) -> Option<Seq<char>>
    decreases clients.len(),
{
    if clients.len() == 0 {
        None
    } else if clients[0].client_id is Some && clients[0].client_id->0@ == client_id {
        opt_view(clients[0].id)
    } else {
        first_client_match(clients.drop_first(), client_id)
    }
}

/// Finds the internal id of the client with the given `clientId` among listed clients.
pub fn first_client_with_client_id(clients: &[ClientRepresentation], client_id: &str) -> (r: Option<String>)
    ensures
        opt_view(r) == first_client_match(clients@, client_id@),
{
    let n = clients.len();
    let mut i: usize = 0;
    assert(clients@.skip(0) =~= clients@);
    while i < n
        invariant
            n == clients@.len(),
            i <= n,
            first_client_match(clients@, client_id@) == first_client_match(clients@.skip(i as int), client_id@),
        decreases n - i,
    {
        assert(clients@.skip(i as int).drop_first() =~= clients@.skip(i + 1));
        assert(clients@.skip(i as int)[0] == clients@[i as int]);
        match &clients[i].client_id {
            Some(c) => {
                if str_eq(c.as_str(), client_id) {
                    return match &clients[i].id {
                        Some(id) => Some(id.clone()),
                        None => None,
                    };
                }
            },
            None => {},
        }
        i = i + 1;
    }
    None
}

} // verus!
