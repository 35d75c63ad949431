//! Resolving client and client-scope references (internal ids, `clientId`s and scope
//! names) against what the gateway returned.
use vstd::prelude::*;
use crate::clients::{ClientRepresentation, ClientScopeRepresentation};
use crate::errors::{McpError, internal_error, INTERNAL_ERROR, INVALID_PARAMS};
use crate::json::{
    JsonNumber, JsonValue, entries_get, field, field_text, jstr, jstr_array, lemma_entries_get_at, string_array_json,
};
use crate::order::{sort_dedup, sorted_unique, same_texts};
use crate::auth::{has_text, lemma_has_text_push};
use crate::outside::{uuid_parse, uuid_parse_value, uuid_to_string, uuid_hyphenated};
use crate::text::str_eq;
use crate::validation::{
    validate_uuid, validate_no_path_traversal, has_path_traversal, uuid_message, traversal_message,
};

verus! {

/// The canonical form of an identifier: the lowercase hyphenated UUID when it parses as one,
/// otherwise the text itself.
pub open spec fn canonical_id(s: Seq<char>) -> Seq<char> {
    match uuid_parse_value(s) {
        Some(v) => uuid_hyphenated(v),
        None => s,
    }
}

/// Canonicalizes an identifier.
pub fn canonical_id_text(s: &str) -> (r: String)
    ensures
        r@ == canonical_id(s@),
{
    match uuid_parse(s) {
        Some(v) => uuid_to_string(v),
        None => s.to_owned(),
    }
}

/// The value of the first entry with key `key`.
pub open spec fn assoc_get(entries: Seq<(String, String)>, key: Seq<char>) -> Option<Seq<char>>
    decreases entries.len(),
{
    if entries.len() == 0 {
        None
    } else if entries[0].0@ == key {
        Some(entries[0].1@)
    } else {
        assoc_get(entries.drop_first(), key)
    }
}

/// The index of the first entry with key `key`.
pub fn assoc_index(entries: &Vec<(String, String)>, key: &str) -> (r: Option<usize>)
    ensures
        r is None ==> assoc_get(entries@, key@) is None,
        r matches Some(i) ==> i < entries@.len() && entries@[i as int].0@ == key@ && assoc_get(
            entries@,
            key@,
        ) == Some(entries@[i as int].1@) && forall|k: int| 0 <= k < i ==> entries@[k].0@ != key@,
{
    let n = entries.len();
    let mut i: usize = 0;
    assert(entries@.subrange(0, n as int) =~= entries@);
    while i < n
        invariant
            n == entries@.len(),
            i <= n,
            assoc_get(entries@, key@) == assoc_get(entries@.subrange(i as int, n as int), key@),
            forall|k: int| 0 <= k < i ==> entries@[k].0@ != key@,
        decreases n - i,
    {
        assert(entries@.subrange(i as int, n as int).drop_first() =~= entries@.subrange(i + 1, n as int));
        if str_eq(entries[i].0.as_str(), key) {
            return Some(i);
        }
        i = i + 1;
    }
    None
}

/// Looking up a key after replacing the value of its first entry.
proof fn lemma_assoc_update(entries: Seq<(String, String)>, i: int, key: Seq<char>, value: String, k: Seq<char>)
    requires
        0 <= i < entries.len(),
        entries[i].0@ == key,
        forall|j: int| 0 <= j < i ==> entries[j].0@ != key,
    ensures
        assoc_get(entries.update(i, (entries[i].0, value)), k) == if k == key {
            Some(value@)
        } else {
            assoc_get(entries, k)
        },
    decreases i,
{
    let updated = entries.update(i, (entries[i].0, value));
    if i > 0 {
        lemma_assoc_update(entries.drop_first(), i - 1, key, value, k);
        assert(updated.drop_first() =~= entries.drop_first().update(i - 1, (entries[i].0, value)));
        assert(updated[0] == entries[0]);
    } else {
        assert(updated.drop_first() =~= entries.drop_first());
    }
}

/// Looking up a key after appending an entry.
proof fn lemma_assoc_push(entries: Seq<(String, String)>, entry: (String, String), k: Seq<char>)
    ensures
        assoc_get(entries.push(entry), k) == if assoc_get(entries, k) is Some {
            assoc_get(entries, k)
        } else if entry.0@ == k {
            Some(entry.1@)
        } else {
            None
        },
    decreases entries.len(),
{
    let pushed = entries.push(entry);
    if entries.len() > 0 {
        lemma_assoc_push(entries.drop_first(), entry, k);
        assert(pushed.drop_first() =~= entries.drop_first().push(entry));
        assert(pushed[0] == entries[0]);
    } else {
        assert(pushed.drop_first() =~= Seq::<(String, String)>::empty());
        assert(assoc_get(Seq::<(String, String)>::empty(), k) is None);
        assert(pushed[0] == entry);
    }
}

/// Sets the value of `key` (replacing the value it had).
pub fn assoc_set(entries: &mut Vec<(String, String)>, key: String, value: String)
    ensures
        forall|k: Seq<char>| assoc_get(final(entries)@, k) == if k == key@ {
            Some(value@)
        } else {
            assoc_get(old(entries)@, k)
        },
{
    match assoc_index(entries, key.as_str()) {
        Some(i) => {
            let ghost before = entries@;
            let old_key = entries[i].0.clone();
            entries.set(i, (old_key, value));
            assert forall|k: Seq<char>| assoc_get(entries@, k) == if k == key@ {
                Some(value@)
            } else {
                assoc_get(before, k)
            } by {
                assert(entries@ =~= before.update(i as int, (before[i as int].0, value)));
                lemma_assoc_update(before, i as int, key@, value, k);
            }
        },
        None => {
            let ghost before = entries@;
            entries.push((key, value));
            assert forall|k: Seq<char>| assoc_get(entries@, k) == if k == key@ {
                Some(value@)
            } else {
                assoc_get(before, k)
            } by {
                lemma_assoc_push(before, (key, value), k);
            }
        },
    }
}

/// Sets the value of `key` only when it has none yet.
pub fn assoc_set_if_absent(entries: &mut Vec<(String, String)>, key: String, value: String)
    ensures
        forall|k: Seq<char>| assoc_get(final(entries)@, k) == if k == key@ && assoc_get(
            old(entries)@,
            k,
        ) is None {
            Some(value@)
        } else {
            assoc_get(old(entries)@, k)
        },
{
    if assoc_index(entries, key.as_str()).is_none() {
        let ghost before = entries@;
        entries.push((key, value));
        assert forall|k: Seq<char>| assoc_get(entries@, k) == if k == key@ && assoc_get(before, k) is None {
            Some(value@)
        } else {
            assoc_get(before, k)
        } by {
            lemma_assoc_push(before, (key, value), k);
        }
    }
}

/// Client scopes indexed by canonical id and by name (both give the scope's id). A lookup
/// is only made by `build_client_scope_lookup`, which records the listing it indexes.
pub struct ClientScopeLookup {
    by_id: Vec<(String, String)>,
    by_name: Vec<(String, String)>,
    scopes: Ghost<Seq<ClientScopeRepresentation>>,
}

/// The id of the last listed scope whose canonical id is `key` (later listings win).
pub open spec fn scope_id_for_id(scopes: Seq<ClientScopeRepresentation>, key: Seq<char>) -> Option<Seq<char>>
    decreases scopes.len(),
{
    if scopes.len() == 0 {
        None
    } else {
        let s = scopes.last();
        match s.id {
            Some(id) if canonical_id(id@) == key => Some(id@),
            _ => scope_id_for_id(scopes.drop_last(), key),
        }
    }
}

/// The id of the first listed scope (with an id) named `key` (earlier listings win).
pub open spec fn scope_id_for_name(scopes: Seq<ClientScopeRepresentation>, key: Seq<char>) -> Option<Seq<char>>
    decreases scopes.len(),
{
    if scopes.len() == 0 {
        None
    } else {
        let earlier = scope_id_for_name(scopes.drop_last(), key);
        let s = scopes.last();
        if earlier is Some {
            earlier
        } else {
            match (s.id, s.name) {
                (Some(id), Some(name)) if name@ == key => Some(id@),
                _ => None,
            }
        }
    }
}

/// The two indexes answer exactly as the listing does.
pub open spec fn indexes_listing(
    by_id: Seq<(String, String)>,
    by_name: Seq<(String, String)>,
    scopes: Seq<ClientScopeRepresentation>,
) -> bool {
    forall|k: Seq<char>|
        assoc_get(by_id, k) == scope_id_for_id(scopes, k) && assoc_get(by_name, k)
            == scope_id_for_name(scopes, k)
}

impl ClientScopeLookup {
    /// The listing of client scopes this lookup was built from.
    pub closed spec fn listing(self) -> Seq<ClientScopeRepresentation> {
        self.scopes@
    }

    #[verifier::type_invariant]
    spec fn indexes_its_listing(self) -> bool {
        indexes_listing(self.by_id@, self.by_name@, self.scopes@)
    }
}

/// Indexes listed client scopes by canonical id and by name. Scopes without an id are skipped.
pub fn build_client_scope_lookup(scopes: &[ClientScopeRepresentation]) -> (l: ClientScopeLookup)
    ensures
        l.listing() == scopes@,
{
    let mut by_id: Vec<(String, String)> = Vec::new();
    let mut by_name: Vec<(String, String)> = Vec::new();
    let n = scopes.len();
    for i in 0..n
        invariant
            n == scopes@.len(),
            indexes_listing(by_id@, by_name@, scopes@.take(i as int)),
    {
        let ghost prefix = scopes@.take(i + 1);
        assert(prefix.drop_last() =~= scopes@.take(i as int));
        assert(prefix.last() == scopes@[i as int]);
        let ghost before_id = by_id@;
        let ghost before_name = by_name@;
        let scope = &scopes[i];
        match &scope.id {
            Some(id) => {
                let canonical = canonical_id_text(id.as_str());
                assoc_set(&mut by_id, canonical, id.clone());
                match &scope.name {
                    Some(name) => {
                        assoc_set_if_absent(&mut by_name, name.clone(), id.clone());
                    },
                    None => {},
                }
            },
            None => {},
        }
        assert forall|k: Seq<char>|
            assoc_get(by_id@, k) == scope_id_for_id(prefix, k) && assoc_get(by_name@, k)
                == scope_id_for_name(prefix, k) by {
            assert(assoc_get(before_id, k) == scope_id_for_id(scopes@.take(i as int), k));
            assert(assoc_get(before_name, k) == scope_id_for_name(scopes@.take(i as int), k));
        }
    }
    assert(scopes@.take(n as int) =~= scopes@);
    ClientScopeLookup { by_id, by_name, scopes: Ghost(scopes@) }
}

/// Looks up the value of a key.
pub fn assoc_lookup(entries: &Vec<(String, String)>, key: &str) -> (r: Option<String>)
    ensures
        r matches Some(v) ==> assoc_get(entries@, key@) == Some(v@),
        r is None ==> assoc_get(entries@, key@) is None,
{
    match assoc_index(entries, key) {
        Some(i) => Some(entries[i].1.clone()),
        None => None,
    }
}

/// How a scope reference resolves: a UUID is tried against canonical ids first, then the
/// reference is tried as a name.
pub open spec fn resolve_scope_spec(token: Seq<char>, scopes: Seq<ClientScopeRepresentation>) -> Option<Seq<char>> {
    let by_id = match uuid_parse_value(token) {
        Some(v) => scope_id_for_id(scopes, uuid_hyphenated(v)),
        None => None,
    };
    if by_id is Some {
        by_id
    } else {
        scope_id_for_name(scopes, token)
    }
}

/// Resolves a scope reference (id or name) to a scope id.
pub fn resolve_scope_lookup(scope_token: &str, lookup: &ClientScopeLookup) -> (r: Option<String>)
    ensures
        r matches Some(v) ==> resolve_scope_spec(scope_token@, lookup.listing()) == Some(v@),
        r is None ==> resolve_scope_spec(scope_token@, lookup.listing()) is None,
{
    proof {
        use_type_invariant(lookup);
    }
    match uuid_parse(scope_token) {
        Some(v) => {
            let canonical = uuid_to_string(v);
            match assoc_lookup(&lookup.by_id, canonical.as_str()) {
                Some(id) => {
                    return Some(id);
                },
                None => {},
            }
        },
        None => {},
    }
    assoc_lookup(&lookup.by_name, scope_token)
}

/// The number of client scopes requested per page when listing a realm's scopes.
pub const SCOPE_PAGE_SIZE: u32 = 100;

/// Where listing continues after a page of `page_len` scopes fetched from offset `first`:
/// `None` after a short page (the last one), otherwise the next offset (the offset plus the
/// page size, saturating); an error when the offset cannot advance.
pub fn next_scope_page(first: u32, page_len: usize) -> (r: Result<Option<u32>, McpError>)
    ensures
        page_len < SCOPE_PAGE_SIZE ==> r matches Ok(None),
        page_len >= SCOPE_PAGE_SIZE && first < u32::MAX ==> r == Ok::<Option<u32>, McpError>(
            Some(if first + SCOPE_PAGE_SIZE > u32::MAX { u32::MAX } else { (first + SCOPE_PAGE_SIZE) as u32 }),
        ),
        page_len >= SCOPE_PAGE_SIZE && first == u32::MAX ==> (r matches Err(e) && e.code == INTERNAL_ERROR
            && e.message@ == "gateway request failed"@ && (e.data matches Some(JsonValue::Object(d))
            && d@.len() == 3 && entries_get(d@, "first"@) == Some(JsonValue::Number(JsonNumber::Int(first as i128)))
            && entries_get(d@, "max"@) == Some(JsonValue::Number(JsonNumber::Int(100)))
            && field_text(JsonValue::Object(d), "upstream_error"@) == Some(
            "scope lookup pagination cursor did not advance"@,
        ))),
{
    if page_len < SCOPE_PAGE_SIZE as usize {
        return Ok(None);
    }
    let next = first.saturating_add(SCOPE_PAGE_SIZE);
    if next <= first {
        let mut d: Vec<(String, JsonValue)> = Vec::new();
        d.push((String::from_str("first"), JsonValue::Number(JsonNumber::Int(first as i128))));
        d.push((String::from_str("max"), JsonValue::Number(JsonNumber::Int(100))));
        d.push(
            (
                String::from_str("upstream_error"),
                jstr("scope lookup pagination cursor did not advance"),
            ),
        );
        proof {
            reveal_strlit("first");
            reveal_strlit("max");
            reveal_strlit("upstream_error");
            assert(d@.drop_first()[0] == d@[1]);
            assert(d@.drop_first().drop_first()[0] == d@[2]);
            assert(d@[0].0@ == "first"@);
            assert(d@[1].0@ == "max"@);
            assert(d@[2].0@ == "upstream_error"@);
            assert("first"@.len() == 5 && "max"@.len() == 3 && "upstream_error"@.len() == 14);
            reveal_with_fuel(entries_get, 4);
            assert(entries_get(d@, "max"@) == Some(d@[1].1));
            assert(entries_get(d@, "upstream_error"@) == Some(d@[2].1));
            reveal_strlit("scope lookup pagination cursor did not advance");
        }
        return Err(internal_error("gateway request failed", Some(JsonValue::Object(d))));
    }
    Ok(Some(next))
}

/// How an unresolved reference is reported: ids as `scope_id:{id}`, names as given.
pub open spec fn missing_label(token: Seq<char>, as_id: bool) -> Seq<char> {
    if as_id {
        "scope_id:"@ + token
    } else {
        token
    }
}

/// Some token of `tokens` resolves to `s`.
pub open spec fn some_resolves_to(tokens: Seq<String>, scopes: Seq<ClientScopeRepresentation>, s: Seq<char>) -> bool {
    exists|i: int| 0 <= i < tokens.len() && resolve_scope_spec((#[trigger] tokens[i])@, scopes) == Some(s)
}

/// Some token of `tokens` does not resolve and is reported as `s`.
pub open spec fn some_missing_as(
    tokens: Seq<String>,
    scopes: Seq<ClientScopeRepresentation>,
    as_id: bool,
    s: Seq<char>,
) -> bool {
    exists|i: int|
        0 <= i < tokens.len() && resolve_scope_spec((#[trigger] tokens[i])@, scopes) is None && s
            == missing_label(tokens[i]@, as_id)
}

/// Resolves each token, adding resolved ids to `ids` and the labels of unresolved tokens to
/// `missing`.
fn resolve_tokens(
    tokens: &[String],
    lookup: &ClientScopeLookup,
    as_id: bool,
    ids: Vec<String>,
    missing: Vec<String>,
) -> (r: (Vec<String>, Vec<String>))
    ensures
        forall|s: Seq<char>| #[trigger] has_text(r.0@, s) <==> (has_text(ids@, s) || some_resolves_to(
            tokens@,
            lookup.listing(),
            s,
        )),
        forall|s: Seq<char>| #[trigger] has_text(r.1@, s) <==> (has_text(missing@, s)
            || some_missing_as(tokens@, lookup.listing(), as_id, s)),
{
    let ghost ids0 = ids@;
    let ghost missing0 = missing@;
    let mut ids = ids;
    let mut missing = missing;
    let ghost scopes = lookup.listing();
    let n = tokens.len();
    for i in 0..n
        invariant
            n == tokens@.len(),
            scopes == lookup.listing(),
            forall|s: Seq<char>| #[trigger] has_text(ids@, s) <==> (has_text(ids0, s) || some_resolves_to(
                tokens@.take(i as int),
                scopes,
                s,
            )),
            forall|s: Seq<char>| #[trigger] has_text(missing@, s) <==> (has_text(missing0, s) || some_missing_as(
                tokens@.take(i as int),
                scopes,
                as_id,
                s,
            )),
    {
        let ghost before_ids = ids@;
        let ghost before_missing = missing@;
        let token = &tokens[i];
        match resolve_scope_lookup(token.as_str(), lookup) {
            Some(id) => {
                let ghost idv = id;
                assert(tokens@[i as int] == *token);
                assert(resolve_scope_spec(tokens@[i as int]@, scopes) == Some(idv@));
                ids.push(id);
                assert(ids@ == before_ids.push(idv));
                assert forall|s: Seq<char>| #[trigger] has_text(ids@, s) <==> (has_text(ids0, s) || some_resolves_to(tokens@.take(i + 1), scopes, s)) by {
                    lemma_take_step(tokens@, scopes, i as int, as_id, s);
                    lemma_has_text_push(before_ids, idv, s);
                }
                assert forall|s: Seq<char>| #[trigger] has_text(missing@, s) <==> (has_text(missing0, s) || some_missing_as(tokens@.take(i + 1), scopes, as_id, s)) by {
                    lemma_take_step(tokens@, scopes, i as int, as_id, s);
                }
            },
            None => {
                let label = if as_id {
                    let mut l = String::from_str("scope_id:");
                    l.append(token.as_str());
                    l
                } else {
                    token.clone()
                };
                let ghost lv = label;
                assert(tokens@[i as int] == *token);
                assert(lv@ == missing_label(tokens@[i as int]@, as_id));
                missing.push(label);
                assert(missing@ == before_missing.push(lv));
                assert forall|s: Seq<char>| #[trigger] has_text(missing@, s) <==> (has_text(missing0, s) || some_missing_as(tokens@.take(i + 1), scopes, as_id, s)) by {
                    lemma_take_step(tokens@, scopes, i as int, as_id, s);
                    lemma_has_text_push(before_missing, lv, s);
                }
                assert forall|s: Seq<char>| #[trigger] has_text(ids@, s) <==> (has_text(ids0, s) || some_resolves_to(tokens@.take(i + 1), scopes, s)) by {
                    lemma_take_step(tokens@, scopes, i as int, as_id, s);
                }
            },
        }
    }
    assert(tokens@.take(n as int) =~= tokens@);
    (ids, missing)
}

/// Extending a prefix of references by one reference.
proof fn lemma_take_step(
    tokens: Seq<String>,
    scopes: Seq<ClientScopeRepresentation>,
    i: int,
    as_id: bool,
    s: Seq<char>,
)
    requires
        0 <= i < tokens.len(),
    ensures
        some_resolves_to(tokens.take(i + 1), scopes, s) <==> (some_resolves_to(tokens.take(i), scopes, s)
            || resolve_scope_spec(tokens[i]@, scopes) == Some(s)),
        some_missing_as(tokens.take(i + 1), scopes, as_id, s) <==> (some_missing_as(
            tokens.take(i),
            scopes,
            as_id,
            s,
        ) || (resolve_scope_spec(tokens[i]@, scopes) is None && s == missing_label(tokens[i]@, as_id))),
{
    let pre = tokens.take(i);
    let post = tokens.take(i + 1);
    assert(post[i] == tokens[i]);
    assert forall|k: int| 0 <= k < i implies post[k] == pre[k] by {}
    if some_resolves_to(post, scopes, s) {
        let k = choose|k: int| 0 <= k < post.len() && resolve_scope_spec((#[trigger] post[k])@, scopes) == Some(s);
        if k < i {
            assert(pre[k] == post[k]);
        }
    }
    if some_resolves_to(pre, scopes, s) {
        let k = choose|k: int| 0 <= k < pre.len() && resolve_scope_spec((#[trigger] pre[k])@, scopes) == Some(s);
        assert(post[k] == pre[k]);
    }
    if some_missing_as(post, scopes, as_id, s) {
        let k = choose|k: int|
            0 <= k < post.len() && resolve_scope_spec((#[trigger] post[k])@, scopes) is None && s
                == missing_label(post[k]@, as_id);
        if k < i {
            assert(pre[k] == post[k]);
        }
    }
    if some_missing_as(pre, scopes, as_id, s) {
        let k = choose|k: int|
            0 <= k < pre.len() && resolve_scope_spec((#[trigger] pre[k])@, scopes) is None && s
                == missing_label(pre[k]@, as_id);
        assert(post[k] == pre[k]);
    }
}

/// The scope references given as ids: `scope_id`, then `scope_ids`.
pub open spec fn id_tokens(scope_id: Option<String>, scope_ids: Option<Vec<String>>) -> Seq<String> {
    let first: Seq<String> = match scope_id {
        Some(x) => seq![x],
        None => Seq::empty(),
    };
    let rest: Seq<String> = match scope_ids {
        Some(v) => v@,
        None => Seq::empty(),
    };
    first + rest
}

/// Scope references resolved: the distinct ids, sorted, and the distinct labels of the
/// references that did not resolve, sorted.
#[derive(Debug, Clone, PartialEq)]
pub struct ScopeIdsResult {
    pub ids: Vec<String>,
    pub missing_names: Vec<String>,
}

/// Resolves every scope reference of a request (ids first, then names). An unresolved id is
/// reported as `scope_id:{id}`, an unresolved name as itself.
pub fn resolve_scope_ids(
    lookup: &ClientScopeLookup,
    scope_id: &Option<String>,
    scope_ids: &Option<Vec<String>>,
    scope_name: &Option<String>,
    scope_names: &Option<Vec<String>>,
) -> (r: ScopeIdsResult)
    ensures
        sorted_unique(r.ids@),
        forall|s: Seq<char>| #[trigger] has_text(r.ids@, s) <==> (some_resolves_to(
            id_tokens(*scope_id, *scope_ids),
            lookup.listing(),
            s,
        ) || some_resolves_to(id_tokens(*scope_name, *scope_names), lookup.listing(), s)),
        sorted_unique(r.missing_names@),
        forall|s: Seq<char>| #[trigger] has_text(r.missing_names@, s) <==> (some_missing_as(
            id_tokens(*scope_id, *scope_ids),
            lookup.listing(),
            true,
            s,
        ) || some_missing_as(id_tokens(*scope_name, *scope_names), lookup.listing(), false, s)),
{
    let id_list = token_list(scope_id, scope_ids);
    let name_list = token_list(scope_name, scope_names);
    let (ids, missing) = resolve_tokens(&id_list, lookup, true, Vec::new(), Vec::new());
    let (ids, missing) = resolve_tokens(&name_list, lookup, false, ids, missing);
    let ids = sort_dedup(ids);
    let missing_names = sort_dedup(missing);
    ScopeIdsResult { ids, missing_names }
}

/// The optional single reference followed by the optional list.
fn token_list(single: &Option<String>, many: &Option<Vec<String>>) -> (v: Vec<String>)
    ensures
        v@ == id_tokens(*single, *many),
{
    let mut v: Vec<String> = Vec::new();
    match single {
        Some(x) => {
            v.push(x.clone());
        },
        None => {},
    }
    match many {
        Some(list) => {
            let ghost start = v@;
            let n = list.len();
            for i in 0..n
                invariant
                    n == list@.len(),
                    v@ == start + list@.take(i as int),
            {
                v.push(list[i].clone());
                assert(v@ =~= start + list@.take(i + 1));
            }
            assert(list@.take(n as int) =~= list@);
        },
        None => {},
    }
    assert(v@ =~= id_tokens(*single, *many));
    v
}

/// Resolves one client scope reference: `scope_id` when given (it must not navigate paths),
/// otherwise `scope_name`.
pub fn resolve_client_scope_id(
    lookup: &ClientScopeLookup,
    scope_id: Option<&String>,
    scope_name: Option<&String>,
) -> (r: Result<Option<String>, McpError>)
    ensures
        scope_id matches Some(x) ==> (r is Err <==> has_path_traversal(x@)),
        scope_id is None ==> r is Ok,
        r matches Ok(Some(v)) ==> resolve_scope_spec(
            match scope_id {
                Some(x) => x@,
                None => scope_name->0@,
            },
            lookup.listing(),
        ) == Some(v@) && (scope_id is Some || scope_name is Some),
        r matches Ok(None) ==> (scope_id matches Some(x) ==> resolve_scope_spec(x@, lookup.listing()) is None)
            && (scope_id is None ==> (scope_name matches Some(n) ==> resolve_scope_spec(n@, lookup.listing()) is None)),
{
    match scope_id {
        None => match scope_name {
            Some(name) => Ok(resolve_scope_lookup(name.as_str(), lookup)),
            None => Ok(None),
        },
        Some(id) => {
            validate_no_path_traversal(id.as_str(), "scope_id")?;
            Ok(resolve_scope_lookup(id.as_str(), lookup))
        },
    }
}

/// A client reference after validation, before any gateway call.
#[derive(Debug, Clone, PartialEq)]
pub enum ClientReference {
    /// An internal id, canonicalized.
    Known(String),
    /// A `clientId` to look up.
    ByClientId(String),
    /// Neither was given.
    Missing,
}

/// Whether a reference passes validation: an internal id must parse as a UUID and a
/// `clientId` must not navigate paths.
pub open spec fn client_reference_valid(id: Option<&String>, client_id: Option<&String>) -> bool {
    &&& (id matches Some(x) ==> uuid_parse_value(x@) is Some)
    &&& (client_id matches Some(c) ==> !has_path_traversal(c@))
}

/// The message of the first check a reference fails: the id before the `clientId`.
pub open spec fn client_reference_error(id: Option<&String>, client_id: Option<&String>) -> Option<Seq<char>> {
    if id is Some && uuid_parse_value(id->0@) is None {
        Some(uuid_message(id->0@, "id"@))
    } else if client_id is Some && has_path_traversal(client_id->0@) {
        Some(traversal_message("client_id"@))
    } else {
        None
    }
}

/// Checks the id and `clientId` a caller gave.
pub fn validate_client_lookup_input(id: Option<&String>, client_id: Option<&String>) -> (r: Result<
    (),
    McpError,
>)
    ensures
        r is Ok <==> client_reference_valid(id, client_id),
        r is Ok <==> client_reference_error(id, client_id) is None,
        r matches Err(e) ==> e.code == INVALID_PARAMS && e.data is None && client_reference_error(id, client_id)
            == Some(e.message@),
{
    match id {
        Some(id) => {
            validate_uuid(id.as_str(), "id")?;
        },
        None => {},
    }
    match client_id {
        Some(client_id) => {
            validate_no_path_traversal(client_id.as_str(), "client_id")?;
        },
        None => {},
    }
    Ok(())
}

/// Validates a reference and decides how it resolves: an id is used directly (canonicalized),
/// otherwise a `clientId` is looked up.
pub fn client_reference(id: Option<&String>, client_id: Option<&String>) -> (r: Result<
    ClientReference,
    McpError,
>)
    ensures
        r is Ok <==> client_reference_valid(id, client_id),
        r matches Err(e) ==> e.code == INVALID_PARAMS && e.data is None && client_reference_error(id, client_id)
            == Some(e.message@),
        r matches Ok(ClientReference::Known(c)) ==> id matches Some(x) && c@ == canonical_id(x@),
        r matches Ok(ClientReference::ByClientId(c)) ==> id is None && (client_id matches Some(x) && c@
            == x@),
        r matches Ok(ClientReference::Missing) ==> id is None && client_id is None,
        r is Ok ==> (id is Some ==> r matches Ok(ClientReference::Known(_))),
        r is Ok ==> (id is None && client_id is Some ==> r matches Ok(ClientReference::ByClientId(_))),
{
    validate_client_lookup_input(id, client_id)?;
    match id {
        Some(id) => Ok(ClientReference::Known(canonical_id_text(id.as_str()))),
        None => match client_id {
            Some(c) => Ok(ClientReference::ByClientId(c.clone())),
            None => Ok(ClientReference::Missing),
        },
    }
}

/// The client has `clientId` `cid` and internal id `s`.
pub open spec fn client_has_id(c: ClientRepresentation, cid: Seq<char>, s: Seq<char>) -> bool {
    match (c.client_id, c.id) {
        (Some(a), Some(b)) => a@ == cid && b@ == s,
        _ => false,
    }
}

/// `s` is the internal id of a listed client whose `clientId` is `cid`.
pub open spec fn id_matches(clients: Seq<ClientRepresentation>, cid: Seq<char>, s: Seq<char>) -> bool {
    exists|i: int| 0 <= i < clients.len() && client_has_id(#[trigger] clients[i], cid, s)
}

/// The hint attached to an ambiguous lookup.
pub open spec fn ambiguous_hint() -> Seq<char> {
    "Retry with id/keycloak_id to select the Keycloak internal unique identifier."@
}

/// The details of an ambiguous lookup: the `clientId`, a hint, and every matching internal id,
/// sorted and without repeats.
pub open spec fn ambiguity_details(data: Option<JsonValue>, clients: Seq<ClientRepresentation>, cid: Seq<char>) -> bool {
    &&& data matches Some(d)
    &&& d matches JsonValue::Object(members) && members@.len() == 3
    &&& field_text(d, "client_id"@) == Some(cid)
    &&& field_text(d, "hint"@) == Some(ambiguous_hint())
    &&& (field(d, "matches"@) matches Some(JsonValue::Array(m)) && exists|ids: Seq<String>|
        #![trigger string_array_json(ids)]
        string_array_json(ids) == m@ && sorted_unique(ids) && forall|s: Seq<char>|
            #[trigger] has_text(ids, s) <==> id_matches(clients, cid, s))
}

/// Picks the internal id of the client whose `clientId` matches exactly. Several distinct
/// matching ids are an error; none is `None`.
pub fn select_client_id(clients: &[ClientRepresentation], client_id: &str) -> (r: Result<
    Option<String>,
    McpError,
>)
    ensures
        r is Err <==> exists|a: Seq<char>, b: Seq<char>|
            a != b && #[trigger] id_matches(clients@, client_id@, a) && #[trigger] id_matches(
                clients@,
                client_id@,
                b,
            ),
        r matches Ok(Some(x)) ==> forall|s: Seq<char>| #[trigger]
            id_matches(clients@, client_id@, s) <==> s == x@,
        r matches Ok(None) ==> forall|s: Seq<char>| !#[trigger] id_matches(clients@, client_id@, s),
        r matches Err(e) ==> e.code == INTERNAL_ERROR && e.message@ == "ambiguous client_id lookup"@
            && ambiguity_details(e.data, clients@, client_id@),
{
    let mut ids: Vec<String> = Vec::new();
    let n = clients.len();
    for i in 0..n
        invariant
            n == clients@.len(),
            forall|s: Seq<char>| has_text(ids@, s) <==> exists|k: int|
                0 <= k < i && client_has_id(#[trigger] clients@[k], client_id@, s),
    {
        let c = &clients[i];
        let ghost before = ids@;
        match (&c.client_id, &c.id) {
            (Some(cid), Some(id)) => {
                if str_eq(cid.as_str(), client_id) {
                    assert(forall|s: Seq<char>| has_text(before, s) <==> exists|k: int|
                        0 <= k < i && client_has_id(#[trigger] clients@[k], client_id@, s));
                    ids.push(id.clone());
                    assert forall|s: Seq<char>| #[trigger] has_text(ids@, s) <==> exists|k: int|
                        0 <= k < i + 1 && client_has_id(#[trigger] clients@[k], client_id@, s) by {
                        if has_text(ids@, s) {
                            let j = choose|j: int| 0 <= j < ids@.len() && (#[trigger] ids@[j])@ == s;
                            if j < before.len() {
                                assert(before[j] == ids@[j]);
                                assert(has_text(before, s));
                            } else {
                                assert(client_has_id(clients@[i as int], client_id@, s));
                            }
                        }
                        if exists|k: int| 0 <= k < i + 1 && client_has_id(#[trigger] clients@[k], client_id@, s) {
                            let k = choose|k: int|
                                0 <= k < i + 1 && client_has_id(#[trigger] clients@[k], client_id@, s);
                            if k < i {
                                assert(has_text(before, s));
                                let j = choose|j: int| 0 <= j < before.len() && (#[trigger] before[j])@ == s;
                                assert(ids@[j] == before[j]);
                            } else {
                                assert(ids@[before.len() as int] == *id);
                            }
                        }
                    }
                }
            },
            _ => {},
        }
    }
    let sorted = sort_dedup(ids);
    assert forall|s: Seq<char>| #[trigger] id_matches(clients@, client_id@, s) <==> has_text(sorted@, s) by {
    }
    if sorted.len() > 1 {
        proof {
            assert(has_text(sorted@, sorted@[0]@));
            assert(has_text(sorted@, sorted@[1]@));
            crate::order::lemma_lt_irreflexive(sorted@[0]@);
            assert(id_matches(clients@, client_id@, sorted@[0]@));
            assert(id_matches(clients@, client_id@, sorted@[1]@));
        }
        let mut data: Vec<(String, JsonValue)> = Vec::new();
        data.push((String::from_str("client_id"), jstr(client_id)));
        data.push(
            (
                String::from_str("hint"),
                jstr("Retry with id/keycloak_id to select the Keycloak internal unique identifier."),
            ),
        );
        data.push((String::from_str("matches"), jstr_array(&sorted)));
        proof {
            reveal_strlit("client_id");
            reveal_strlit("hint");
            reveal_strlit("matches");
            assert(data@[0].0@.len() != data@[1].0@.len());
            assert(data@[0].0@.len() != data@[2].0@.len());
            assert(data@[1].0@.len() != data@[2].0@.len());
            lemma_entries_get_at(data@, 0);
            lemma_entries_get_at(data@, 1);
            lemma_entries_get_at(data@, 2);
            let m = data@[2].1->Array_0@;
            assert(string_array_json(sorted@) == m);
        }
        return Err(internal_error("ambiguous client_id lookup", Some(JsonValue::Object(data))));
    }
    if sorted.len() == 1 {
        proof {
            assert forall|s: Seq<char>| #[trigger] id_matches(clients@, client_id@, s) <==> s == sorted@[0]@ by {
                if has_text(sorted@, s) {
                    let j = choose|j: int| 0 <= j < sorted@.len() && (#[trigger] sorted@[j])@ == s;
                }
                if s == sorted@[0]@ {
                    assert(has_text(sorted@, sorted@[0]@));
                }
            }
        }
        return Ok(Some(sorted[0].clone()));
    }
    Ok(None)
}

} // verus!
