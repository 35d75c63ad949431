//! Validation of caller-provided values that end up in gateway paths.
use vstd::prelude::*;
use crate::errors::{McpError, invalid_params, INVALID_PARAMS};
use crate::outside::{
    regex_new, regex_is_match, realm_name_pattern, is_realm_name_char, uuid_parse,
    uuid_parse_value,
};
use crate::text::{str_has_char, str_contains, seq_contains};

verus! {

/// A realm name: non-empty, letters, digits, `-` and `_` only.
pub open spec fn valid_realm_name(realm: Seq<char>) -> bool {
    realm.len() > 0 && forall|i: int| 0 <= i < realm.len() ==> is_realm_name_char(#[trigger] realm[i])
}

/// The message for a realm name that does not match the pattern.
pub open spec fn realm_format_message(realm: Seq<char>) -> Seq<char> {
    "invalid realm name format: '"@ + realm + "' (must be alphanumeric, '-', or '_')"@
}

/// The message for a rejected realm name.
pub open spec fn realm_error_message(realm: Seq<char>) -> Seq<char> {
    if realm.len() == 0 {
        "realm name cannot be empty"@
    } else {
        realm_format_message(realm)
    }
}

/// Ensures the realm name matches `^[a-zA-Z0-9_-]+$`.
pub fn validate_realm_name(realm: &str) -> (r: Result<(), McpError>)
    ensures
        r is Ok <==> valid_realm_name(realm@),
        r matches Err(e) ==> e.code == INVALID_PARAMS && e.data is None && e.message@ == realm_error_message(realm@),
{
    if realm.is_empty() {
        return Err(invalid_params(String::from_str("realm name cannot be empty")));
    }
    let re = regex_new("^[a-zA-Z0-9_-]+$");
    proof {
        reveal_strlit("^[a-zA-Z0-9_-]+$");
        assert("^[a-zA-Z0-9_-]+$"@ =~= realm_name_pattern());
    }
    let matched = match &re {
        Some(c) => regex_is_match(c, realm),
        None => false,
    };
    if !matched {
        let mut message = String::from_str("invalid realm name format: '");
        message.append(realm);
        message.append("' (must be alphanumeric, '-', or '_')");
        return Err(invalid_params(message));
    }
    Ok(())
}

/// The message for a value that is not a UUID.
pub open spec fn uuid_message(id: Seq<char>, field_name: Seq<char>) -> Seq<char> {
    "invalid "@ + field_name + ": '"@ + id + "' (must be a valid UUID)"@
}

/// Ensures the value parses as a UUID in one of the forms the uuid crate accepts.
pub fn validate_uuid(id: &str, field_name: &str) -> (r: Result<(), McpError>)
    ensures
        r is Ok <==> uuid_parse_value(id@) is Some,
        r matches Err(e) ==> e.code == INVALID_PARAMS && e.data is None && e.message@ == uuid_message(
            id@,
            field_name@,
        ),
{
    if uuid_parse(id).is_none() {
        let mut message = String::from_str("invalid ");
        message.append(field_name);
        message.append(": '");
        message.append(id);
        message.append("' (must be a valid UUID)");
        return Err(invalid_params(message));
    }
    Ok(())
}

/// `..`
pub open spec fn dot_dot() -> Seq<char> {
    seq!['.', '.']
}

/// A value that could navigate a path: a slash, a backslash or `..`.
pub open spec fn has_path_traversal(input: Seq<char>) -> bool {
    input.contains('/') || input.contains('\\') || seq_contains(input, dot_dot())
}

/// The message for a value that could navigate a path.
pub open spec fn traversal_message(field_name: Seq<char>) -> Seq<char> {
    "invalid characters in "@ + field_name + ": path traversal detected"@
}

/// Rejects values containing `/`, `\` or `..`.
pub fn validate_no_path_traversal(input: &str, field_name: &str) -> (r: Result<(), McpError>)
    ensures
        r is Ok <==> !has_path_traversal(input@),
        r matches Err(e) ==> e.code == INVALID_PARAMS && e.data is None && e.message@
            == traversal_message(field_name@),
{
    let dots = str_contains(input, "..");
    proof {
        reveal_strlit("..");
        assert(".."@ =~= dot_dot());
    }
    if str_has_char(input, '/') || str_has_char(input, '\\') || dots {
        let mut message = String::from_str("invalid characters in ");
        message.append(field_name);
        message.append(": path traversal detected");
        return Err(invalid_params(message));
    }
    Ok(())
}

} // verus!
