//! Planning client scope bindings: which default/optional scopes to attach or detach,
//! the reported outcome, and the paths the bindings live at.
use vstd::prelude::*;
use crate::auth::{has_text, contains_text, lemma_has_text_push};
use crate::clients::ClientScopeSummary;
use crate::clients::lookup::{
    ClientScopeLookup, ScopeIdsResult, client_reference_error, resolve_scope_lookup,
    resolve_scope_spec, validate_client_lookup_input,
};
use crate::clients::ClientScopeRepresentation;
use crate::errors::{bare, without_context, McpError, ToolError, tool_error, tool_error_with_hint, INVALID_PARAMS};
use crate::json::{JsonValue, field_text, jstr, jstr_array, lemma_entries_get_at, string_array_json};
use crate::order::{
    sort_dedup, sorted_unique, same_texts, seq_lt, lemma_filter_increasing, lemma_increasing_determined,
    lemma_texts_of_sorted,
};
use crate::text::{joined, string_views, join_strings, copy_strings, trim, trimmed};
use crate::validation::{
    validate_realm_name, validate_uuid, validate_no_path_traversal, valid_realm_name,
    has_path_traversal, realm_error_message,
};
use crate::outside::uuid_parse_value;

verus! {

/// Whether a client scope binding is a default or an optional one.
#[derive(Debug, Clone, Copy, PartialEq, Eq, Structural)]
pub enum ScopeKind {
    Default,
    Optional,
}

/// Whether a binding is attached or detached.
#[derive(Debug, Clone, Copy, PartialEq, Eq, Structural)]
pub enum ScopeMutationAction {
    Add,
    Remove,
}

/// The outcome reported for a scope mutation.
#[derive(Debug, Clone, Copy, PartialEq, Eq, Structural)]
pub enum MutationOutcome {
    Added,
    Removed,
    Updated,
    AlreadyBound,
    AlreadyUnbound,
    AlreadyMatch,
    WouldAdd,
    WouldRemove,
    WouldUpdate,
}

/// The stable label of an outcome.
pub open spec fn outcome_label(o: MutationOutcome) -> Seq<char> {
    match o {
        MutationOutcome::Added => "added"@,
        MutationOutcome::Removed => "removed"@,
        MutationOutcome::Updated => "updated"@,
        MutationOutcome::AlreadyBound => "already_bound"@,
        MutationOutcome::AlreadyUnbound => "already_unbound"@,
        MutationOutcome::AlreadyMatch => "already_match"@,
        MutationOutcome::WouldAdd => "would_add"@,
        MutationOutcome::WouldRemove => "would_remove"@,
        MutationOutcome::WouldUpdate => "would_update"@,
    }
}

impl MutationOutcome {
    /// The stable label of the outcome.
    pub fn as_str(&self) -> (s: &'static str)
        ensures
            s@ == outcome_label(*self),
    {
        match self {
            MutationOutcome::Added => "added",
            MutationOutcome::Removed => "removed",
            MutationOutcome::Updated => "updated",
            MutationOutcome::AlreadyBound => "already_bound",
            MutationOutcome::AlreadyUnbound => "already_unbound",
            MutationOutcome::AlreadyMatch => "already_match",
            MutationOutcome::WouldAdd => "would_add",
            MutationOutcome::WouldRemove => "would_remove",
            MutationOutcome::WouldUpdate => "would_update",
        }
    }
}

/// The label of a scope kind.
pub fn scope_kind_label(kind: ScopeKind) -> (s: &'static str)
    ensures
        s@ == match kind {
            ScopeKind::Default => "default"@,
            ScopeKind::Optional => "optional"@,
        },
{
    match kind {
        ScopeKind::Default => "default",
        ScopeKind::Optional => "optional",
    }
}

/// The path segment of a scope kind.
pub open spec fn scope_kind_segment(kind: ScopeKind) -> Seq<char> {
    match kind {
        ScopeKind::Default => "default-client-scopes"@,
        ScopeKind::Optional => "optional-client-scopes"@,
    }
}

/// The path segment of a scope kind.
pub fn scope_kind_path(kind: ScopeKind) -> (s: &'static str)
    ensures
        s@ == scope_kind_segment(kind),
{
    match kind {
        ScopeKind::Default => "default-client-scopes",
        ScopeKind::Optional => "optional-client-scopes",
    }
}

/// `/admin/realms/{realm}/clients/{client}/{kind}/{scope}`
pub open spec fn binding_path(realm: Seq<char>, client: Seq<char>, kind: ScopeKind, scope: Seq<char>) -> Seq<char> {
    "/admin/realms/"@ + realm + "/clients/"@ + client + "/"@ + scope_kind_segment(kind) + "/"@ + scope
}

/// The gateway path of one scope binding of a client.
pub fn scope_binding_path(realm: &str, client_id: &str, kind: ScopeKind, scope_id: &str) -> (p: String)
    ensures
        p@ == binding_path(realm@, client_id@, kind, scope_id@),
{
    let mut p = String::from_str("/admin/realms/");
    p.append(realm);
    p.append("/clients/");
    p.append(client_id);
    p.append("/");
    p.append(scope_kind_path(kind));
    p.append("/");
    p.append(scope_id);
    p
}

/// Sorts scope ids and drops repeats.
pub fn normalize_scope_id_list(values: Vec<String>) -> (r: Vec<String>)
    ensures
        sorted_unique(r@),
        same_texts(r@, values@),
{
    sort_dedup(values)
}

/// What a scope mutation would do: the requested ids, those already in the wanted state,
/// and those to attach or detach.
#[derive(Debug, Clone, PartialEq)]
pub struct ScopeMutationPlan {
    pub requested: Vec<String>,
    pub already_bound: Vec<String>,
    pub added: Vec<String>,
    pub removed: Vec<String>,
}

/// The texts of `v` that are (`inside`) or are not in `set`, in order.
pub fn filter_by_membership(v: &Vec<String>, set: &[String], inside: bool) -> (r: Vec<String>)
    requires
        sorted_unique(v@),
    ensures
        sorted_unique(r@),
        forall|s: Seq<char>| has_text(r@, s) <==> (has_text(v@, s) && has_text(set@, s) == inside),
{
    let mut out: Vec<String> = Vec::new();
    let n = v.len();
    let ghost mut idx: Seq<int> = Seq::empty();
    for i in 0..n
        invariant
            n == v@.len(),
            sorted_unique(v@),
            out@.len() == idx.len(),
            forall|k: int| 0 <= k < idx.len() ==> 0 <= #[trigger] idx[k] < i && out@[k] == v@[idx[k]],
            forall|a: int, b: int| 0 <= a < b < idx.len() ==> idx[a] < idx[b],
            forall|s: Seq<char>| has_text(out@, s) <==> exists|k: int|
                0 <= k < i && (#[trigger] v@[k])@ == s && has_text(set@, s) == inside,
    {
        let ghost before = out@;
        if contains_text(set, &v[i]) == inside {
            out.push(v[i].clone());
            proof {
                idx = idx.push(i as int);
            }
        }
        assert forall|s: Seq<char>| has_text(out@, s) <==> exists|k: int|
            0 <= k < i + 1 && (#[trigger] v@[k])@ == s && has_text(set@, s) == inside by {
            if has_text(out@, s) {
                let j = choose|j: int| 0 <= j < out@.len() && (#[trigger] out@[j])@ == s;
                if j < before.len() {
                    assert(out@[j] == before[j]);
                    assert(has_text(before, s));
                } else {
                    assert(v@[i as int]@ == s);
                }
            }
            if exists|k: int| 0 <= k < i + 1 && (#[trigger] v@[k])@ == s && has_text(set@, s) == inside {
                let k = choose|k: int| 0 <= k < i + 1 && (#[trigger] v@[k])@ == s && has_text(set@, s) == inside;
                if k < i {
                    assert(has_text(before, s));
                    let j = choose|j: int| 0 <= j < before.len() && (#[trigger] before[j])@ == s;
                    assert(out@[j] == before[j]);
                } else {
                    assert(out@[before.len() as int] == v@[i as int]);
                }
            }
        }
    }
    assert forall|a: int, b: int| 0 <= a < b < out@.len() implies seq_lt(out@[a]@, out@[b]@) by {
        assert(out@[a] == v@[idx[a]]);
        assert(out@[b] == v@[idx[b]]);
    }
    assert forall|s: Seq<char>| has_text(out@, s) <==> (has_text(v@, s) && has_text(set@, s) == inside) by {
        if has_text(v@, s) && has_text(set@, s) == inside {
            let k = choose|k: int| 0 <= k < v@.len() && (#[trigger] v@[k])@ == s;
        }
    }
    out
}

/// The texts that `existing` holds.
pub open spec fn bound_in(existing: Seq<String>) -> spec_fn(Seq<char>) -> bool {
    |q: Seq<char>| has_text(existing, q)
}

/// The texts that `existing` does not hold.
pub open spec fn unbound_in(existing: Seq<String>) -> spec_fn(Seq<char>) -> bool {
    |q: Seq<char>| !has_text(existing, q)
}

/// A sorted, duplicate-free list holding exactly the texts of the sorted list `v` that are
/// (`inside`) or are not in `set` is `v` filtered by that membership.
proof fn lemma_membership_filter(v: Seq<String>, r: Seq<String>, set: Seq<String>, inside: bool)
    requires
        sorted_unique(v),
        sorted_unique(r),
        forall|s: Seq<char>| has_text(r, s) <==> (has_text(v, s) && has_text(set, s) == inside),
    ensures
        string_views(r) == string_views(v).filter(if inside { bound_in(set) } else { unbound_in(set) }),
{
    let pred = if inside { bound_in(set) } else { unbound_in(set) };
    lemma_texts_of_sorted(v);
    lemma_texts_of_sorted(r);
    lemma_filter_increasing(string_views(v), pred);
    let f = string_views(v).filter(pred);
    assert forall|s: Seq<char>| string_views(r).contains(s) <==> f.contains(s) by {
        assert(has_text(r, s) <==> (has_text(v, s) && has_text(set, s) == inside));
        assert(pred(s) == (has_text(set, s) == inside));
    }
    lemma_increasing_determined(string_views(r), f);
}

/// Plan for attaching requested scopes: those not yet bound are added.
pub fn scope_add_plan(existing: &[String], requested: &[String]) -> (p: ScopeMutationPlan)
    ensures
        sorted_unique(p.requested@),
        same_texts(p.requested@, requested@),
        sorted_unique(p.already_bound@),
        forall|s: Seq<char>| has_text(p.already_bound@, s) <==> (has_text(requested@, s) && has_text(existing@, s)),
        sorted_unique(p.added@),
        forall|s: Seq<char>| has_text(p.added@, s) <==> (has_text(requested@, s) && !has_text(existing@, s)),
        p.removed@.len() == 0,
        string_views(p.already_bound@) == string_views(p.requested@).filter(bound_in(existing@)),
        string_views(p.added@) == string_views(p.requested@).filter(unbound_in(existing@)),
{
    let requested = normalize_scope_id_list(copy_strings(requested));
    let already_bound = filter_by_membership(&requested, existing, true);
    let added = filter_by_membership(&requested, existing, false);
    proof {
        lemma_membership_filter(requested@, already_bound@, existing@, true);
        lemma_membership_filter(requested@, added@, existing@, false);
    }
    ScopeMutationPlan { requested, already_bound, added, removed: Vec::new() }
}

/// Plan for detaching requested scopes: those bound are removed; `already_bound` lists the
/// requested scopes that are already unbound.
pub fn scope_remove_plan(existing: &[String], requested: &[String]) -> (p: ScopeMutationPlan)
    ensures
        sorted_unique(p.requested@),
        same_texts(p.requested@, requested@),
        sorted_unique(p.removed@),
        forall|s: Seq<char>| has_text(p.removed@, s) <==> (has_text(requested@, s) && has_text(existing@, s)),
        sorted_unique(p.already_bound@),
        forall|s: Seq<char>| has_text(p.already_bound@, s) <==> (has_text(requested@, s) && !has_text(existing@, s)),
        p.added@.len() == 0,
        string_views(p.removed@) == string_views(p.requested@).filter(bound_in(existing@)),
        string_views(p.already_bound@) == string_views(p.requested@).filter(unbound_in(existing@)),
{
    let requested = normalize_scope_id_list(copy_strings(requested));
    let removed = filter_by_membership(&requested, existing, true);
    let already_bound = filter_by_membership(&requested, existing, false);
    proof {
        lemma_membership_filter(requested@, removed@, existing@, true);
        lemma_membership_filter(requested@, already_bound@, existing@, false);
    }
    ScopeMutationPlan { requested, already_bound, added: Vec::new(), removed }
}

/// Plan for making the bound scopes exactly `desired`.
pub fn scope_replace_plan(existing: &[String], desired: &[String]) -> (p: ScopeMutationPlan)
    ensures
        sorted_unique(p.requested@),
        same_texts(p.requested@, desired@),
        sorted_unique(p.already_bound@),
        forall|s: Seq<char>| has_text(p.already_bound@, s) <==> (has_text(existing@, s) && has_text(desired@, s)),
        sorted_unique(p.added@),
        forall|s: Seq<char>| has_text(p.added@, s) <==> (has_text(desired@, s) && !has_text(existing@, s)),
        sorted_unique(p.removed@),
        forall|s: Seq<char>| has_text(p.removed@, s) <==> (has_text(existing@, s) && !has_text(desired@, s)),
        string_views(p.already_bound@) == string_views(p.requested@).filter(bound_in(existing@)),
        string_views(p.added@) == string_views(p.requested@).filter(unbound_in(existing@)),
        forall|sorted_existing: Seq<String>|
            sorted_unique(sorted_existing) && same_texts(sorted_existing, existing@) ==> string_views(p.removed@)
                == #[trigger] string_views(sorted_existing).filter(unbound_in(desired@)),
{
    let requested = normalize_scope_id_list(copy_strings(desired));
    let existing_sorted = normalize_scope_id_list(copy_strings(existing));
    let already_bound = filter_by_membership(&existing_sorted, desired, true);
    let added = filter_by_membership(&requested, existing, false);
    let removed = filter_by_membership(&existing_sorted, desired, false);
    proof {
        assert forall|s: Seq<char>| has_text(already_bound@, s) <==> (has_text(requested@, s) && has_text(
            existing@,
            s,
        ) == true) by {}
        lemma_membership_filter(requested@, already_bound@, existing@, true);
        lemma_membership_filter(requested@, added@, existing@, false);
        assert forall|sorted_existing: Seq<String>|
            sorted_unique(sorted_existing) && same_texts(sorted_existing, existing@) implies string_views(removed@)
                == #[trigger] string_views(sorted_existing).filter(unbound_in(desired@)) by {
            lemma_membership_filter(sorted_existing, removed@, desired@, false);
        }
    }
    ScopeMutationPlan { requested, already_bound, added, removed }
}

/// Replacing makes the bound set exactly the desired set: after detaching `removed` and
/// attaching `added`, a scope is bound iff it was desired.
pub proof fn law_replace_reaches_desired(
    existing: Seq<String>,
    desired: Seq<String>,
    added: Seq<String>,
    removed: Seq<String>,
    s: Seq<char>,
)
    requires
        forall|t: Seq<char>| has_text(added, t) <==> (has_text(desired, t) && !has_text(existing, t)),
        forall|t: Seq<char>| has_text(removed, t) <==> (has_text(existing, t) && !has_text(desired, t)),
    ensures
        ((has_text(existing, s) && !has_text(removed, s)) || has_text(added, s)) <==> has_text(desired, s),
{
}

/// Attaching is idempotent: once the planned additions are bound, planning the same request
/// again adds nothing.
pub proof fn law_add_plan_idempotent(
    existing: Seq<String>,
    requested: Seq<String>,
    added: Seq<String>,
    after: Seq<String>,
    s: Seq<char>,
)
    requires
        forall|t: Seq<char>| has_text(added, t) <==> (has_text(requested, t) && !has_text(existing, t)),
        forall|t: Seq<char>| has_text(after, t) <==> (has_text(existing, t) || has_text(added, t)),
    ensures
        !(has_text(requested, s) && !has_text(after, s)),
{
}

/// Detaching is idempotent: once the planned removals are unbound, planning the same request
/// again removes nothing.
pub proof fn law_remove_plan_idempotent(
    existing: Seq<String>,
    requested: Seq<String>,
    removed: Seq<String>,
    after: Seq<String>,
    s: Seq<char>,
)
    requires
        forall|t: Seq<char>| has_text(removed, t) <==> (has_text(requested, t) && has_text(existing, t)),
        forall|t: Seq<char>| has_text(after, t) <==> (has_text(existing, t) && !has_text(removed, t)),
    ensures
        !(has_text(requested, s) && has_text(after, s)),
{
}

/// The outcome of a mutation: the no-change outcome when nothing changes, otherwise whether
/// scopes were (or, in a dry run, would be) added, removed or both.
pub open spec fn outcome_of(adds: bool, removes: bool, dry_run: bool, no_change: MutationOutcome) -> MutationOutcome {
    if !adds && !removes {
        no_change
    } else if dry_run {
        if adds && removes {
            MutationOutcome::WouldUpdate
        } else if adds {
            MutationOutcome::WouldAdd
        } else {
            MutationOutcome::WouldRemove
        }
    } else if adds && removes {
        MutationOutcome::Updated
    } else if adds {
        MutationOutcome::Added
    } else {
        MutationOutcome::Removed
    }
}

/// Decides the reported outcome of a scope mutation.
pub fn mutation_outcome(
    to_add: &[String],
    to_remove: &[String],
    dry_run: bool,
    no_change_default: MutationOutcome,
) -> (o: MutationOutcome)
    ensures
        o == outcome_of(to_add@.len() > 0, to_remove@.len() > 0, dry_run, no_change_default),
{
    if to_add.len() == 0 && to_remove.len() == 0 {
        return no_change_default;
    }
    if dry_run {
        if to_add.len() != 0 && to_remove.len() != 0 {
            MutationOutcome::WouldUpdate
        } else if to_add.len() != 0 {
            MutationOutcome::WouldAdd
        } else {
            MutationOutcome::WouldRemove
        }
    } else if to_add.len() != 0 && to_remove.len() != 0 {
        MutationOutcome::Updated
    } else if to_add.len() != 0 {
        MutationOutcome::Added
    } else {
        MutationOutcome::Removed
    }
}

/// The summary reported after a scope mutation.
#[derive(Debug, Clone, PartialEq)]
pub struct ScopeMutationSummary {
    pub outcome: String,
    pub client: String,
    pub changed: bool,
    pub requested_state: String,
    pub scope_kind: String,
    pub requested_scope_ids: Vec<String>,
    pub already_bound: Vec<String>,
    pub to_add: Vec<String>,
    pub to_remove: Vec<String>,
    pub will_apply: bool,
    pub dry_run: bool,
}

/// Builds the summary of a scope mutation; `changed` when anything is added or removed, and
/// `will_apply` when changed outside a dry run.
pub fn scope_mutation_summary(
    outcome: MutationOutcome,
    client: &str,
    requested_state: &str,
    scope_kind: &str,
    requested_scope_ids: Vec<String>,
    already_bound: Vec<String>,
    to_add: Vec<String>,
    to_remove: Vec<String>,
    dry_run: bool,
) -> (s: ScopeMutationSummary)
    ensures
        s.outcome@ == outcome_label(outcome),
        s.client@ == client@,
        s.changed == (to_add@.len() > 0 || to_remove@.len() > 0),
        s.requested_state@ == requested_state@,
        s.scope_kind@ == scope_kind@,
        s.requested_scope_ids == requested_scope_ids,
        s.already_bound == already_bound,
        s.to_add == to_add,
        s.to_remove == to_remove,
        s.will_apply == (!dry_run && s.changed),
        s.dry_run == dry_run,
{
    let changed = to_add.len() != 0 || to_remove.len() != 0;
    ScopeMutationSummary {
        outcome: String::from_str(outcome.as_str()),
        client: client.to_owned(),
        changed,
        requested_state: requested_state.to_owned(),
        scope_kind: scope_kind.to_owned(),
        requested_scope_ids,
        already_bound,
        to_add,
        to_remove,
        will_apply: !dry_run && changed,
        dry_run,
    }
}

/// The first check the realm and client reference of a scope request fail, as the message
/// of the error it gives: the realm, then the id, then the `clientId`.
pub open spec fn scope_client_input_error(realm: Seq<char>, id: Option<&String>, client_id: Option<&String>) -> Option<
    Seq<char>,
> {
    if !valid_realm_name(realm) {
        Some(realm_error_message(realm))
    } else {
        client_reference_error(id, client_id)
    }
}

/// Validates the realm and the client reference of a scope request.
pub fn validate_scope_client_inputs(realm: &str, id: Option<&String>, client_id: Option<&String>) -> (r: Result<
    (),
    McpError,
>)
    ensures
        r is Ok <==> scope_client_input_error(realm@, id, client_id) is None,
        r matches Err(e) ==> e.code == INVALID_PARAMS && e.data is None && scope_client_input_error(
            realm@,
            id,
            client_id,
        ) == Some(e.message@),
{
    validate_realm_name(realm)?;
    validate_client_lookup_input(id, client_id)
}

/// The scope reference of a binding request, trimmed; a blank reference is refused.
pub fn require_scope_token(scope: &str, request_id: &str) -> (r: Result<String, ToolError>)
    ensures
        r matches Ok(t) ==> t@ == trimmed(scope@) && t@.len() > 0,
        r is Err <==> trimmed(scope@).len() == 0,
        r matches Err(e) ==> e.code@ == "clients.invalid_input"@ && e.message@ == "scope is required."@
            && e.request_id@ == request_id@ && bare(e),
{
    let t = trim(scope);
    if t.as_str().is_empty() {
        return Err(tool_error("clients.invalid_input", "scope is required.", request_id));
    }
    Ok(t)
}

/// The message listing scope references that did not resolve.
pub open spec fn not_found_message(missing: Seq<String>) -> Seq<char> {
    "Client scopes not found: "@ + joined(string_views(missing), ", "@)
}

/// Refuses a request whose scope references did not all resolve, or resolved to nothing.
pub fn require_resolved_scopes(resolved: &ScopeIdsResult, request_id: &str) -> (r: Result<(), ToolError>)
    ensures
        r is Ok <==> resolved.missing_names@.len() == 0 && resolved.ids@.len() > 0,
        resolved.missing_names@.len() > 0 ==> (r matches Err(e) && e.code@ == "client_scopes.not_found"@
            && e.message@ == not_found_message(resolved.missing_names@) && e.request_id@ == request_id@ && bare(e)),
        resolved.missing_names@.len() == 0 && resolved.ids@.len() == 0 ==> (r matches Err(e)
            && e.code@ == "client_scopes.none"@ && e.message@ == "No client scopes resolved."@
            && e.request_id@ == request_id@ && bare(e)),
{
    if resolved.missing_names.len() != 0 {
        return Err(not_found_error(&resolved.missing_names, request_id));
    }
    if resolved.ids.len() == 0 {
        return Err(tool_error("client_scopes.none", "No client scopes resolved.", request_id));
    }
    Ok(())
}

fn not_found_error(missing: &[String], request_id: &str) -> (e: ToolError)
    ensures
        e.code@ == "client_scopes.not_found"@,
        e.message@ == not_found_message(missing@),
        e.request_id@ == request_id@ && bare(e),
{
    let mut message = String::from_str("Client scopes not found: ");
    let list = join_strings(missing, ", ");
    message.append(list.as_str());
    tool_error("client_scopes.not_found", message.as_str(), request_id)
}

/// Refuses a replacement whose scope references did not all resolve, or that would clear every
/// scope without `allow_empty`.
pub fn require_replacement_scopes(resolved: &ScopeIdsResult, allow_empty: bool, request_id: &str) -> (r: Result<
    (),
    ToolError,
>)
    ensures
        r is Ok <==> resolved.missing_names@.len() == 0 && (resolved.ids@.len() > 0 || allow_empty),
        resolved.missing_names@.len() > 0 ==> (r matches Err(e) && e.code@ == "client_scopes.not_found"@
            && e.message@ == not_found_message(resolved.missing_names@) && e.request_id@ == request_id@ && bare(e)),
        resolved.missing_names@.len() == 0 && resolved.ids@.len() == 0 && !allow_empty ==> (r matches Err(e)
            && e.code@ == "client_scopes.empty"@
            && e.message@ == "No client scopes resolved. Set allow_empty=true to clear all."@
            && e.request_id@ == request_id@ && (e.hint matches Some(h)
            && h@ == "Set allow_empty=true if you intend to clear all scopes."@) && without_context(e)),
{
    if resolved.missing_names.len() != 0 {
        return Err(not_found_error(&resolved.missing_names, request_id));
    }
    if resolved.ids.len() == 0 && !allow_empty {
        return Err(
            tool_error_with_hint(
                "client_scopes.empty",
                "No client scopes resolved. Set allow_empty=true to clear all.",
                request_id,
                "Set allow_empty=true if you intend to clear all scopes.",
            ),
        );
    }
    Ok(())
}

/// Refuses a replacement that was not confirmed.
pub fn require_replace_confirmation(confirm: bool, request_id: &str) -> (r: Result<(), ToolError>)
    ensures
        r is Ok <==> confirm,
        r matches Err(e) ==> e.code@ == "clients.confirm_required"@ && e.message@
            == "confirm=true is required to replace scopes."@ && e.request_id@ == request_id@ && bare(e),
{
    if !confirm {
        return Err(
            tool_error("clients.confirm_required", "confirm=true is required to replace scopes.", request_id),
        );
    }
    Ok(())
}

/// The scope has the id `id`.
pub open spec fn scope_has_id(scope: ClientScopeRepresentation, id: Seq<char>) -> bool {
    match scope.id {
        Some(x) => x@ == id,
        None => false,
    }
}

/// The scope has the name `name`.
pub open spec fn scope_has_name(scope: ClientScopeRepresentation, name: Seq<char>) -> bool {
    match scope.name {
        Some(x) => x@ == name,
        None => false,
    }
}

/// Some listed scope has the id `id`.
pub open spec fn scopes_have_id(scopes: Seq<ClientScopeRepresentation>, id: Seq<char>) -> bool {
    exists|i: int| 0 <= i < scopes.len() && scope_has_id(#[trigger] scopes[i], id)
}

/// Some listed scope has the name `name`.
pub open spec fn scopes_have_name(scopes: Seq<ClientScopeRepresentation>, name: Seq<char>) -> bool {
    exists|i: int| 0 <= i < scopes.len() && scope_has_name(#[trigger] scopes[i], name)
}

/// The ids of the listed scopes (those that have one), in order.
pub fn scope_ids_of(scopes: &[ClientScopeRepresentation]) -> (r: Vec<String>)
    ensures
        forall|s: Seq<char>| #[trigger] has_text(r@, s) <==> scopes_have_id(scopes@, s),
{
    let mut out: Vec<String> = Vec::new();
    let n = scopes.len();
    for i in 0..n
        invariant
            n == scopes@.len(),
            forall|s: Seq<char>| #[trigger] has_text(out@, s) <==> scopes_have_id(scopes@.take(i as int), s),
    {
        let ghost before = out@;
        assert forall|s: Seq<char>| scopes_have_id(scopes@.take(i + 1), s) <==> (scopes_have_id(scopes@.take(i as int), s)
            || scope_has_id(scopes@[i as int], s)) by {
            let pre = scopes@.take(i as int);
            let post = scopes@.take(i + 1);
            assert(post[i as int] == scopes@[i as int]);
            if scopes_have_id(post, s) {
                let k = choose|k: int| 0 <= k < post.len() && scope_has_id(#[trigger] post[k], s);
                if k < i {
                    assert(pre[k] == post[k]);
                }
            }
            if scopes_have_id(pre, s) {
                let k = choose|k: int| 0 <= k < pre.len() && scope_has_id(#[trigger] pre[k], s);
                assert(post[k] == pre[k]);
            }
        }
        match &scopes[i].id {
            Some(id) => {
                let c = id.clone();
                assert(scope_has_id(scopes@[i as int], c@) && forall|s: Seq<char>| scope_has_id(scopes@[i as int], s) ==> s == c@);
                out.push(c);
                assert forall|s: Seq<char>| #[trigger] has_text(out@, s) <==> scopes_have_id(scopes@.take(i + 1), s) by {
                    lemma_has_text_push(before, c, s);
                }
            },
            None => {
                assert(forall|s: Seq<char>| !scope_has_id(scopes@[i as int], s));
            },
        }
    }
    assert(scopes@.take(n as int) =~= scopes@);
    out
}

/// The names of the listed scopes (those that have one), in order.
pub fn scope_names_of(scopes: &[ClientScopeRepresentation]) -> (r: Vec<String>)
    ensures
        forall|s: Seq<char>| #[trigger] has_text(r@, s) <==> scopes_have_name(scopes@, s),
{
    let mut out: Vec<String> = Vec::new();
    let n = scopes.len();
    for i in 0..n
        invariant
            n == scopes@.len(),
            forall|s: Seq<char>| #[trigger] has_text(out@, s) <==> scopes_have_name(scopes@.take(i as int), s),
    {
        let ghost before = out@;
        assert forall|s: Seq<char>| scopes_have_name(scopes@.take(i + 1), s) <==> (scopes_have_name(scopes@.take(i as int), s)
            || scope_has_name(scopes@[i as int], s)) by {
            let pre = scopes@.take(i as int);
            let post = scopes@.take(i + 1);
            assert(post[i as int] == scopes@[i as int]);
            if scopes_have_name(post, s) {
                let k = choose|k: int| 0 <= k < post.len() && scope_has_name(#[trigger] post[k], s);
                if k < i {
                    assert(pre[k] == post[k]);
                }
            }
            if scopes_have_name(pre, s) {
                let k = choose|k: int| 0 <= k < pre.len() && scope_has_name(#[trigger] pre[k], s);
                assert(post[k] == pre[k]);
            }
        }
        match &scopes[i].name {
            Some(name) => {
                let c = name.clone();
                assert(scope_has_name(scopes@[i as int], c@) && forall|s: Seq<char>| scope_has_name(scopes@[i as int], s) ==> s == c@);
                out.push(c);
                assert forall|s: Seq<char>| #[trigger] has_text(out@, s) <==> scopes_have_name(scopes@.take(i + 1), s) by {
                    lemma_has_text_push(before, c, s);
                }
            },
            None => {
                assert(forall|s: Seq<char>| !scope_has_name(scopes@[i as int], s));
            },
        }
    }
    assert(scopes@.take(n as int) =~= scopes@);
    out
}

/// The ids a client has bound, sorted and without repeats.
pub fn existing_scope_ids(scopes: &[ClientScopeRepresentation]) -> (r: Vec<String>)
    ensures
        sorted_unique(r@),
        forall|s: Seq<char>| #[trigger] has_text(r@, s) <==> scopes_have_id(scopes@, s),
{
    let ids = scope_ids_of(scopes);
    let r = sort_dedup(ids);
    assert forall|s: Seq<char>| #[trigger] has_text(r@, s) <==> scopes_have_id(scopes@, s) by {
        assert(has_text(r@, s) <==> has_text(ids@, s));
    }
    r
}

/// Which kind of scope mutation a request asks for.
#[derive(Debug, Clone, Copy, PartialEq, Eq, Structural)]
pub enum ScopeMutationMode {
    /// Attach the requested scopes.
    Attach,
    /// Detach the requested scopes.
    Detach,
    /// Make the bound scopes exactly the requested ones.
    Replace,
}

/// The outcome reported when a mutation changes nothing.
pub open spec fn no_change_outcome(mode: ScopeMutationMode) -> MutationOutcome {
    match mode {
        ScopeMutationMode::Attach => MutationOutcome::AlreadyBound,
        ScopeMutationMode::Detach => MutationOutcome::AlreadyUnbound,
        ScopeMutationMode::Replace => MutationOutcome::AlreadyMatch,
    }
}

/// The state a mutation asks for.
pub open spec fn requested_state_of(mode: ScopeMutationMode) -> Seq<char> {
    match mode {
        ScopeMutationMode::Attach => "bound"@,
        ScopeMutationMode::Detach => "unbound"@,
        ScopeMutationMode::Replace => "exact_match"@,
    }
}

/// The label of a scope kind.
pub open spec fn scope_kind_name(kind: ScopeKind) -> Seq<char> {
    match kind {
        ScopeKind::Default => "default"@,
        ScopeKind::Optional => "optional"@,
    }
}

/// Reports a planned mutation of one kind of scope bindings of `client`.
pub fn scope_mutation_report(
    plan: ScopeMutationPlan,
    kind: ScopeKind,
    mode: ScopeMutationMode,
    client: &str,
    dry_run: bool,
) -> (s: ScopeMutationSummary)
    ensures
        s.outcome@ == outcome_label(
            outcome_of(plan.added@.len() > 0, plan.removed@.len() > 0, dry_run, no_change_outcome(mode)),
        ),
        s.client@ == client@,
        s.changed == (plan.added@.len() > 0 || plan.removed@.len() > 0),
        s.requested_state@ == requested_state_of(mode),
        s.scope_kind@ == scope_kind_name(kind),
        s.requested_scope_ids == plan.requested,
        s.already_bound == plan.already_bound,
        s.to_add == plan.added,
        s.to_remove == plan.removed,
        s.will_apply == (!dry_run && s.changed),
        s.dry_run == dry_run,
{
    let no_change = match mode {
        ScopeMutationMode::Attach => MutationOutcome::AlreadyBound,
        ScopeMutationMode::Detach => MutationOutcome::AlreadyUnbound,
        ScopeMutationMode::Replace => MutationOutcome::AlreadyMatch,
    };
    let state = match mode {
        ScopeMutationMode::Attach => "bound",
        ScopeMutationMode::Detach => "unbound",
        ScopeMutationMode::Replace => "exact_match",
    };
    let outcome = mutation_outcome(&plan.added, &plan.removed, dry_run, no_change);
    scope_mutation_summary(
        outcome,
        client,
        state,
        scope_kind_label(kind),
        plan.requested,
        plan.already_bound,
        plan.added,
        plan.removed,
        dry_run,
    )
}

/// The outcome of ensuring one scope is bound (`ensure`) or unbound.
pub open spec fn ensure_outcome(bound: bool, ensure: bool, dry_run: bool) -> MutationOutcome {
    if ensure {
        if bound {
            MutationOutcome::AlreadyBound
        } else if dry_run {
            MutationOutcome::WouldAdd
        } else {
            MutationOutcome::Added
        }
    } else if !bound {
        MutationOutcome::AlreadyUnbound
    } else if dry_run {
        MutationOutcome::WouldRemove
    } else {
        MutationOutcome::Removed
    }
}

/// The binding changes that ensuring performs: an unbound scope is attached as a default
/// scope; a bound scope is detached from each kind it is bound as. A dry run changes nothing.
pub open spec fn ensure_steps(in_default: bool, in_optional: bool, ensure: bool, dry_run: bool) -> Seq<
    (ScopeKind, ScopeMutationAction),
> {
    if dry_run {
        Seq::empty()
    } else if ensure {
        if in_default || in_optional {
            Seq::empty()
        } else {
            seq![(ScopeKind::Default, ScopeMutationAction::Add)]
        }
    } else {
        (if in_default {
            seq![(ScopeKind::Default, ScopeMutationAction::Remove)]
        } else {
            Seq::empty()
        }) + (if in_optional {
            seq![(ScopeKind::Optional, ScopeMutationAction::Remove)]
        } else {
            Seq::empty()
        })
    }
}

/// Whether a scope is bound as default and as optional after one binding change.
pub open spec fn apply_step(state: (bool, bool), step: (ScopeKind, ScopeMutationAction)) -> (bool, bool) {
    match step.0 {
        ScopeKind::Default => (step.1 == ScopeMutationAction::Add, state.1),
        ScopeKind::Optional => (state.0, step.1 == ScopeMutationAction::Add),
    }
}

/// Whether a scope is bound as default and as optional after a series of binding changes.
pub open spec fn apply_steps(state: (bool, bool), steps: Seq<(ScopeKind, ScopeMutationAction)>) -> (bool, bool)
    decreases steps.len(),
{
    if steps.len() == 0 {
        state
    } else {
        apply_step(apply_steps(state, steps.drop_last()), steps.last())
    }
}

/// What ensuring one scope does: the binding changes to perform, in order, and the report.
pub struct ScopeEnsurePlan {
    pub steps: Vec<(ScopeKind, ScopeMutationAction)>,
    pub summary: ScopeMutationSummary,
}

/// The scope is bound as a default or an optional scope.
pub open spec fn is_bound(default_ids: Seq<String>, optional_ids: Seq<String>, scope_id: Seq<char>) -> bool {
    has_text(default_ids, scope_id) || has_text(optional_ids, scope_id)
}

/// A list holding just `v`, or nothing.
fn single_or_empty(v: &String, keep: bool) -> (r: Vec<String>)
    ensures
        string_views(r@) == if keep { seq![v@] } else { Seq::<Seq<char>>::empty() },
{
    let mut r: Vec<String> = Vec::new();
    if keep {
        r.push(v.clone());
        assert(string_views(r@) =~= seq![v@]);
    } else {
        assert(string_views(r@) =~= Seq::<Seq<char>>::empty());
    }
    r
}

/// Plans ensuring that `scope_id` is bound to (`ensure`) or unbound from `client`, given the
/// ids bound as default and as optional scopes.
pub fn scope_ensure_plan(
    client: &str,
    scope_id: &String,
    default_ids: &[String],
    optional_ids: &[String],
    ensure: bool,
    dry_run: bool,
) -> (p: ScopeEnsurePlan)
    ensures
        p.steps@ == ensure_steps(
            has_text(default_ids@, scope_id@),
            has_text(optional_ids@, scope_id@),
            ensure,
            dry_run,
        ),
        p.summary.outcome@ == outcome_label(ensure_outcome(is_bound(default_ids@, optional_ids@, scope_id@), ensure, dry_run)),
        p.summary.client@ == client@,
        p.summary.requested_state@ == if ensure { "bound"@ } else { "unbound"@ },
        p.summary.scope_kind@ == "default_or_optional"@,
        string_views(p.summary.requested_scope_ids@) == seq![scope_id@],
        string_views(p.summary.already_bound@) == if ensure && is_bound(default_ids@, optional_ids@, scope_id@) {
            seq![scope_id@]
        } else {
            Seq::<Seq<char>>::empty()
        },
        string_views(p.summary.to_add@) == if ensure && !is_bound(default_ids@, optional_ids@, scope_id@) {
            seq![scope_id@]
        } else {
            Seq::<Seq<char>>::empty()
        },
        string_views(p.summary.to_remove@) == if !ensure && is_bound(default_ids@, optional_ids@, scope_id@) {
            seq![scope_id@]
        } else {
            Seq::<Seq<char>>::empty()
        },
        p.summary.changed == (ensure != is_bound(default_ids@, optional_ids@, scope_id@)),
        p.summary.will_apply == (!dry_run && ensure != is_bound(default_ids@, optional_ids@, scope_id@)),
        p.summary.dry_run == dry_run,
{
    let in_default = contains_text(default_ids, scope_id);
    let in_optional = contains_text(optional_ids, scope_id);
    let bound = in_default || in_optional;
    let mut steps: Vec<(ScopeKind, ScopeMutationAction)> = Vec::new();
    let outcome;
    if ensure {
        if bound {
            outcome = MutationOutcome::AlreadyBound;
        } else {
            if !dry_run {
                steps.push((ScopeKind::Default, ScopeMutationAction::Add));
            }
            outcome = if dry_run {
                MutationOutcome::WouldAdd
            } else {
                MutationOutcome::Added
            };
        }
    } else if !bound {
        outcome = MutationOutcome::AlreadyUnbound;
    } else {
        if !dry_run && in_default {
            steps.push((ScopeKind::Default, ScopeMutationAction::Remove));
        }
        if !dry_run && in_optional {
            steps.push((ScopeKind::Optional, ScopeMutationAction::Remove));
        }
        outcome = if dry_run {
            MutationOutcome::WouldRemove
        } else {
            MutationOutcome::Removed
        };
    }
    assert(steps@ =~= ensure_steps(in_default, in_optional, ensure, dry_run));
    let requested = single_or_empty(scope_id, true);
    let already_bound = single_or_empty(scope_id, ensure && bound);
    let to_add = single_or_empty(scope_id, ensure && !bound);
    let to_remove = single_or_empty(scope_id, !ensure && bound);
    let summary = scope_mutation_summary(
        outcome,
        client,
        if ensure { "bound" } else { "unbound" },
        "default_or_optional",
        requested,
        already_bound,
        to_add,
        to_remove,
        dry_run,
    );
    assert(summary.changed == (ensure != bound)) by {
        assert(to_add@.len() == string_views(to_add@).len());
        assert(to_remove@.len() == string_views(to_remove@).len());
    }
    ScopeEnsurePlan { steps, summary }
}

/// Ensuring converges in one step: once the planned changes are applied, the scope is bound
/// exactly when binding was asked for, and ensuring again changes nothing and reports the
/// scope as already in the wanted state.
pub proof fn law_scope_ensure_converges(in_default: bool, in_optional: bool, ensure: bool)
    ensures
        ({
            let after = apply_steps((in_default, in_optional), ensure_steps(in_default, in_optional, ensure, false));
            &&& (after.0 || after.1) == ensure
            &&& ensure_steps(after.0, after.1, ensure, false).len() == 0
            &&& ensure_outcome(after.0 || after.1, ensure, false) == if ensure {
                MutationOutcome::AlreadyBound
            } else {
                MutationOutcome::AlreadyUnbound
            }
        }),
{
    let steps = ensure_steps(in_default, in_optional, ensure, false);
    reveal_with_fuel(apply_steps, 3);
    if !ensure && in_default && in_optional {
        assert(steps.drop_last() =~= seq![(ScopeKind::Default, ScopeMutationAction::Remove)]);
        assert(steps.drop_last().drop_last() =~= Seq::<(ScopeKind, ScopeMutationAction)>::empty());
    } else if !ensure && in_default {
        assert(steps =~= seq![(ScopeKind::Default, ScopeMutationAction::Remove)]);
        assert(steps.drop_last() =~= Seq::<(ScopeKind, ScopeMutationAction)>::empty());
    } else if !ensure && in_optional {
        assert(steps =~= seq![(ScopeKind::Optional, ScopeMutationAction::Remove)]);
        assert(steps.drop_last() =~= Seq::<(ScopeKind, ScopeMutationAction)>::empty());
    } else if !ensure {
        assert(steps =~= Seq::<(ScopeKind, ScopeMutationAction)>::empty());
    } else if ensure && !(in_default || in_optional) {
        assert(steps.drop_last() =~= Seq::<(ScopeKind, ScopeMutationAction)>::empty());
    }
}

/// A dry run of ensuring never changes a binding.
pub proof fn law_scope_ensure_dry_run_changes_nothing(in_default: bool, in_optional: bool, ensure: bool)
    ensures
        ensure_steps(in_default, in_optional, ensure, true).len() == 0,
{
}


/// Whether a scope is bound to a client: whether the reference resolves, whether the scope is
/// bound as default and as optional, the names of all bound scopes, and a hint when the
/// reference does not resolve.
#[derive(Debug, PartialEq)]
pub struct ScopeBindingCheckResult {
    pub scope: String,
    pub scope_exists: bool,
    pub in_default: bool,
    pub in_optional: bool,
    pub currently_bound: bool,
    pub effective_scope_names: Vec<String>,
    pub missing_scope_hint: Option<JsonValue>,
}

/// The resolved scope is one of the listed scopes.
pub open spec fn resolved_in(resolved: Option<Seq<char>>, scopes: Seq<ClientScopeRepresentation>) -> bool {
    match resolved {
        Some(id) => scopes_have_id(scopes, id),
        None => false,
    }
}

/// The hint given for a scope reference that does not resolve.
pub open spec fn is_missing_scope_hint(hint: JsonValue, query: Seq<char>) -> bool {
    &&& field_text(hint, "code"@) == Some("scope.missing"@)
    &&& field_text(hint, "next_action"@) == Some("clients.scope.ensure"@)
    &&& field_text(hint, "query"@) == Some(query)
    &&& field_text(hint, "remedy"@) == Some(
        "resolve scope id/name via clients.scopes.list, then call clients.scope.ensure with ensure=true"@,
    )
}

fn missing_scope_hint(query: &str) -> (h: JsonValue)
    ensures
        is_missing_scope_hint(h, query@),
{
    let mut d: Vec<(String, JsonValue)> = Vec::new();
    d.push((String::from_str("code"), jstr("scope.missing")));
    d.push((String::from_str("next_action"), jstr("clients.scope.ensure")));
    d.push((String::from_str("query"), jstr(query)));
    d.push(
        (
            String::from_str("remedy"),
            jstr(
                "resolve scope id/name via clients.scopes.list, then call clients.scope.ensure with ensure=true",
            ),
        ),
    );
    proof {
        reveal_strlit("code");
        reveal_strlit("next_action");
        reveal_strlit("query");
        reveal_strlit("remedy");
        assert(d@[0].0@ == "code"@ && d@[1].0@ == "next_action"@ && d@[2].0@ == "query"@ && d@[3].0@ == "remedy"@);
        assert("code"@.len() == 4 && "next_action"@.len() == 11 && "query"@.len() == 5 && "remedy"@.len() == 6);
        lemma_entries_get_at(d@, 0);
        lemma_entries_get_at(d@, 1);
        lemma_entries_get_at(d@, 2);
        lemma_entries_get_at(d@, 3);
    }
    JsonValue::Object(d)
}

/// Checks whether the scope `scope` (an id or a name, trimmed) is bound to a client, given
/// the client's default and optional scopes.
pub fn scope_binding_check(
    scope: &str,
    lookup: &ClientScopeLookup,
    default_scopes: &[ClientScopeRepresentation],
    optional_scopes: &[ClientScopeRepresentation],
) -> (r: ScopeBindingCheckResult)
    ensures
        r.scope@ == trimmed(scope@),
        r.scope_exists == resolve_scope_spec(trimmed(scope@), lookup.listing()) is Some,
        r.in_default == resolved_in(resolve_scope_spec(trimmed(scope@), lookup.listing()), default_scopes@),
        r.in_optional == resolved_in(resolve_scope_spec(trimmed(scope@), lookup.listing()), optional_scopes@),
        r.currently_bound == (r.in_default || r.in_optional),
        sorted_unique(r.effective_scope_names@),
        forall|s: Seq<char>| #[trigger] has_text(r.effective_scope_names@, s) <==> (scopes_have_name(
            default_scopes@,
            s,
        ) || scopes_have_name(optional_scopes@, s)),
        r.missing_scope_hint is Some <==> !r.scope_exists,
        r.missing_scope_hint matches Some(h) ==> is_missing_scope_hint(h, trimmed(scope@)),
{
    let token = trim(scope);
    let maybe_scope_id = resolve_scope_lookup(token.as_str(), lookup);
    let default_names = scope_names_of(default_scopes);
    let optional_names = scope_names_of(optional_scopes);
    let mut names = default_names;
    let ghost before = names@;
    let mut k: usize = 0;
    while k < optional_names.len()
        invariant
            k <= optional_names@.len(),
            names@ == before + optional_names@.take(k as int),
        decreases optional_names@.len() - k,
    {
        names.push(optional_names[k].clone());
        assert(names@ =~= before + optional_names@.take(k + 1));
        k = k + 1;
    }
    assert(optional_names@.take(optional_names@.len() as int) =~= optional_names@);
    assert forall|s: Seq<char>| has_text(names@, s) <==> (has_text(before, s) || has_text(optional_names@, s)) by {
        if has_text(names@, s) {
            let j = choose|j: int| 0 <= j < names@.len() && (#[trigger] names@[j])@ == s;
            if j >= before.len() {
                assert(optional_names@[j - before.len()] == names@[j]);
            }
        }
        if has_text(before, s) {
            let j = choose|j: int| 0 <= j < before.len() && (#[trigger] before[j])@ == s;
            assert(names@[j] == before[j]);
        }
        if has_text(optional_names@, s) {
            let j = choose|j: int| 0 <= j < optional_names@.len() && (#[trigger] optional_names@[j])@ == s;
            assert(names@[before.len() + j] == optional_names@[j]);
        }
    }
    let ghost all_names = names@;
    let effective_scope_names = sort_dedup(names);
    assert forall|s: Seq<char>| #[trigger] has_text(effective_scope_names@, s) <==> (scopes_have_name(
        default_scopes@,
        s,
    ) || scopes_have_name(optional_scopes@, s)) by {
        assert(has_text(effective_scope_names@, s) <==> has_text(all_names, s));
        assert(has_text(all_names, s) <==> (has_text(before, s) || has_text(optional_names@, s)));
        assert(has_text(before, s) <==> scopes_have_name(default_scopes@, s));
        assert(has_text(optional_names@, s) <==> scopes_have_name(optional_scopes@, s));
    }
    let default_ids = scope_ids_of(default_scopes);
    let optional_ids = scope_ids_of(optional_scopes);
    let (in_default, in_optional) = match &maybe_scope_id {
        Some(id) => (contains_text(&default_ids, id), contains_text(&optional_ids, id)),
        None => (false, false),
    };
    let missing_scope_hint = if maybe_scope_id.is_none() {
        Some(missing_scope_hint(token.as_str()))
    } else {
        None
    };
    ScopeBindingCheckResult {
        scope: token,
        scope_exists: maybe_scope_id.is_some(),
        in_default,
        in_optional,
        currently_bound: in_default || in_optional,
        effective_scope_names,
        missing_scope_hint,
    }
}

} // verus!
