//! A JSON value model that request bodies, gateway payloads and tool outputs are built from.
use vstd::prelude::*;

verus! {

/// A JSON number: integers exactly, other numbers by their decimal text.
#[derive(Debug, Clone, PartialEq)]
pub enum JsonNumber {
    Int(i128),
    Text(String),
}

/// A JSON value. Objects keep their entries in order; keys are expected to be unique.
#[derive(Debug, PartialEq)]
pub enum JsonValue {
    Null,
    Bool(bool),
    Number(JsonNumber),
    String(String),
    Array(Vec<JsonValue>),
    Object(Vec<(String, JsonValue)>),
}

/// The value of the first entry whose key is `key`.
pub open spec fn entries_get(entries: Seq<(String, JsonValue)>, key: Seq<char>) -> Option<JsonValue>
    decreases entries.len(),
{
    if entries.len() == 0 {
        None
    } else if entries[0].0@ == key {
        Some(entries[0].1)
    } else {
        entries_get(entries.drop_first(), key)
    }
}

/// Looking up the key of an entry finds that entry when no earlier entry has its key.
pub proof fn lemma_entries_get_at(entries: Seq<(String, JsonValue)>, i: int)
    requires
        0 <= i < entries.len(),
        forall|j: int| 0 <= j < i ==> (#[trigger] entries[j]).0@ != entries[i].0@,
    ensures
        entries_get(entries, entries[i].0@) == Some(entries[i].1),
    decreases i,
{
    if i > 0 {
        let rest = entries.drop_first();
        assert forall|j: int| 0 <= j < i - 1 implies (#[trigger] rest[j]).0@ != rest[i - 1].0@ by {
            assert(rest[j] == entries[j + 1]);
        }
        lemma_entries_get_at(rest, i - 1);
        assert(rest[i - 1] == entries[i]);
        assert(entries[0].0@ != entries[i].0@);
    }
}

/// Whether some entry has the key `key`.
pub open spec fn entries_has(entries: Seq<(String, JsonValue)>, key: Seq<char>) -> bool {
    exists|i: int| 0 <= i < entries.len() && (#[trigger] entries[i]).0@ == key
}

/// The member `key` of an object, if `v` is an object that has it.
pub open spec fn field(v: JsonValue, key: Seq<char>) -> Option<JsonValue> {
    match v {
        JsonValue::Object(entries) => entries_get(entries@, key),
        _ => None,
    }
}

/// The text of a JSON string.
pub open spec fn string_text(v: JsonValue) -> Option<Seq<char>> {
    match v {
        JsonValue::String(s) => Some(s@),
        _ => None,
    }
}

/// The text of the string member `key` of `v`, if present and a string.
pub open spec fn field_text(v: JsonValue, key: Seq<char>) -> Option<Seq<char>> {
    match field(v, key) {
        Some(x) => string_text(x),
        None => None,
    }
}

/// Looks up the first entry with the given key.
pub fn entries_lookup<'a>(entries: &'a Vec<(String, JsonValue)>, key: &str) -> (r: Option<&'a JsonValue>)
    ensures
        r matches Some(x) ==> entries_get(entries@, key@) == Some(*x),
        r is None ==> entries_get(entries@, key@) is None,
        r is Some <==> entries_has(entries@, key@),
{
    let n = entries.len();
    let mut i: usize = 0;
    assert(entries@.subrange(0, n as int) =~= entries@);
    while i < n
        invariant
            n == entries@.len(),
            i <= n,
            entries_get(entries@, key@) == entries_get(entries@.subrange(i as int, n as int), key@),
            forall|k: int| 0 <= k < i ==> (#[trigger] entries@[k]).0@ != key@,
        decreases n - i,
    {
        let ghost rest = entries@.subrange(i as int, n as int);
        assert(rest.drop_first() =~= entries@.subrange(i + 1, n as int));
        if crate::text::str_eq(entries[i].0.as_str(), key) {
            return Some(&entries[i].1);
        }
        i = i + 1;
    }
    assert(entries@.subrange(n as int, n as int).len() == 0);
    None
}

/// The member `key` of an object value.
pub fn get_field<'a>(v: &'a JsonValue, key: &str) -> (r: Option<&'a JsonValue>)
    ensures
        r matches Some(x) ==> field(*v, key@) == Some(*x),
        r is None ==> field(*v, key@) is None,
{
    match v {
        JsonValue::Object(entries) => entries_lookup(entries, key),
        _ => None,
    }
}

/// The string member `key` of an object value.
pub fn get_field_str<'a>(v: &'a JsonValue, key: &str) -> (r: Option<&'a String>)
    ensures
        r matches Some(s) ==> field_text(*v, key@) == Some(s@),
        r is None ==> field_text(*v, key@) is None,
{
    match get_field(v, key) {
        Some(x) => match x {
            JsonValue::String(s) => Some(s),
            _ => None,
        },
        None => None,
    }
}

/// A JSON string value.
pub fn jstr(s: &str) -> (v: JsonValue)
    ensures
        v matches JsonValue::String(t) && t@ == s@,
{
    JsonValue::String(s.to_owned())
}

/// A JSON string value, or null.
pub open spec fn opt_text_json(s: Option<String>) -> JsonValue {
    match s {
        Some(t) => JsonValue::String(t),
        None => JsonValue::Null,
    }
}

/// A JSON string or null from an optional string.
pub fn jopt_str(s: &Option<String>) -> (v: JsonValue)
    ensures
        v == opt_text_json(*s),
{
    match s {
        Some(t) => JsonValue::String(t.clone()),
        None => JsonValue::Null,
    }
}

/// A JSON boolean, or null.
pub open spec fn opt_bool_json(b: Option<bool>) -> JsonValue {
    match b {
        Some(x) => JsonValue::Bool(x),
        None => JsonValue::Null,
    }
}

/// A JSON boolean or null from an optional boolean.
pub fn jopt_bool(b: Option<bool>) -> (v: JsonValue)
    ensures
        v == opt_bool_json(b),
{
    match b {
        Some(x) => JsonValue::Bool(x),
        None => JsonValue::Null,
    }
}

/// A JSON integer, or null.
pub open spec fn opt_int_json(n: Option<i64>) -> JsonValue {
    match n {
        Some(x) => JsonValue::Number(JsonNumber::Int(x as i128)),
        None => JsonValue::Null,
    }
}

/// A JSON integer or null from an optional integer.
pub fn jopt_int(n: Option<i64>) -> (v: JsonValue)
    ensures
        v == opt_int_json(n),
{
    match n {
        Some(x) => JsonValue::Number(JsonNumber::Int(x as i128)),
        None => JsonValue::Null,
    }
}

/// The JSON array of strings.
pub open spec fn string_array_json(v: Seq<String>) -> Seq<JsonValue> {
    Seq::new(v.len(), |i: int| JsonValue::String(v[i]))
}

/// A JSON array of strings.
pub fn jstr_array(v: &[String]) -> (r: JsonValue)
    ensures
        r matches JsonValue::Array(items) && items@ == string_array_json(v@),
{
    let mut items: Vec<JsonValue> = Vec::new();
    let n = v.len();
    for i in 0..n
        invariant
            n == v@.len(),
            items@ == string_array_json(v@).take(i as int),
    {
        items.push(JsonValue::String(v[i].clone()));
        assert(items@ =~= string_array_json(v@).take(i + 1));
    }
    assert(items@ =~= string_array_json(v@));
    JsonValue::Array(items)
}

/// The entries of an object with their keys as text.
pub open spec fn entry_views(e: Seq<(String, JsonValue)>) -> Seq<(Seq<char>, JsonValue)> {
    Seq::new(e.len(), |i: int| (e[i].0@, e[i].1))
}

/// One entry when a value is present, none otherwise.
pub open spec fn opt_entry(key: Seq<char>, v: Option<JsonValue>) -> Seq<(Seq<char>, JsonValue)> {
    match v {
        Some(x) => seq![(key, x)],
        None => Seq::empty(),
    }
}

/// Appends an entry.
pub fn with_entry(e: Vec<(String, JsonValue)>, key: &str, v: JsonValue) -> (r: Vec<(String, JsonValue)>)
    ensures
        entry_views(r@) == entry_views(e@) + seq![(key@, v)],
{
    let mut e = e;
    let ghost before = e@;
    e.push((key.to_owned(), v));
    assert(entry_views(e@) =~= entry_views(before) + seq![(key@, v)]);
    e
}

/// Appends an entry when a value is present.
pub fn with_opt_entry(e: Vec<(String, JsonValue)>, key: &str, v: Option<JsonValue>) -> (r: Vec<(String, JsonValue)>)
    ensures
        entry_views(r@) == entry_views(e@) + opt_entry(key@, v),
{
    match v {
        Some(x) => with_entry(e, key, x),
        None => {
            assert(entry_views(e@) + opt_entry(key@, v) =~= entry_views(e@));
            e
        },
    }
}

/// A JSON string value for a present string.
pub open spec fn some_text_json(s: Option<String>) -> Option<JsonValue> {
    match s {
        Some(t) => Some(JsonValue::String(t)),
        None => None,
    }
}

/// A JSON boolean value for a present boolean.
pub open spec fn some_bool_json(b: Option<bool>) -> Option<JsonValue> {
    match b {
        Some(x) => Some(JsonValue::Bool(x)),
        None => None,
    }
}

/// The JSON string of a present string.
pub fn some_text(s: &Option<String>) -> (r: Option<JsonValue>)
    ensures
        r == some_text_json(*s),
{
    match s {
        Some(t) => Some(JsonValue::String(t.clone())),
        None => None,
    }
}

/// The JSON boolean of a present boolean.
pub fn some_bool(b: Option<bool>) -> (r: Option<JsonValue>)
    ensures
        r == some_bool_json(b),
{
    match b {
        Some(x) => Some(JsonValue::Bool(x)),
        None => None,
    }
}

/// The index of the first entry with the given key.
pub fn entries_index(entries: &Vec<(String, JsonValue)>, key: &str) -> (r: Option<usize>)
    ensures
        r is None ==> entries_get(entries@, key@) is None && !entries_has(entries@, key@),
        r matches Some(i) ==> i < entries@.len() && entries@[i as int].0@ == key@ && entries_get(
            entries@,
            key@,
        ) == Some(entries@[i as int].1) && forall|k: int| 0 <= k < i ==> (#[trigger] entries@[k]).0@ != key@,
{
    let n = entries.len();
    let mut i: usize = 0;
    assert(entries@.subrange(0, n as int) =~= entries@);
    while i < n
        invariant
            n == entries@.len(),
            i <= n,
            entries_get(entries@, key@) == entries_get(entries@.subrange(i as int, n as int), key@),
            forall|k: int| 0 <= k < i ==> (#[trigger] entries@[k]).0@ != key@,
        decreases n - i,
    {
        let ghost rest = entries@.subrange(i as int, n as int);
        assert(rest.drop_first() =~= entries@.subrange(i + 1, n as int));
        if crate::text::str_eq(entries[i].0.as_str(), key) {
            return Some(i);
        }
        i = i + 1;
    }
    assert(entries@.subrange(n as int, n as int).len() == 0);
    None
}

/// Looking up a key after replacing the value of its first entry.
pub proof fn lemma_entries_update(entries: Seq<(String, JsonValue)>, i: int, value: JsonValue, k: Seq<char>)
    requires
        0 <= i < entries.len(),
        forall|j: int| 0 <= j < i ==> (#[trigger] entries[j]).0@ != entries[i].0@,
    ensures
        entries_get(entries.update(i, (entries[i].0, value)), k) == if k == entries[i].0@ {
            Some(value)
        } else {
            entries_get(entries, k)
        },
    decreases i,
{
    let updated = entries.update(i, (entries[i].0, value));
    if i > 0 {
        let rest = entries.drop_first();
        assert forall|j: int| 0 <= j < i - 1 implies (#[trigger] rest[j]).0@ != rest[i - 1].0@ by {
            assert(rest[j] == entries[j + 1]);
        }
        lemma_entries_update(rest, i - 1, value, k);
        assert(updated.drop_first() =~= rest.update(i - 1, (rest[i - 1].0, value)));
        assert(updated[0] == entries[0]);
        assert(entries[0].0@ != entries[i].0@);
    } else {
        assert(updated.drop_first() =~= entries.drop_first());
    }
}

/// Looking up a key after appending an entry.
pub proof fn lemma_entries_push(entries: Seq<(String, JsonValue)>, entry: (String, JsonValue), k: Seq<char>)
    ensures
        entries_get(entries.push(entry), k) == if entries_get(entries, k) is Some {
            entries_get(entries, k)
        } else if entry.0@ == k {
            Some(entry.1)
        } else {
            None
        },
    decreases entries.len(),
{
    let pushed = entries.push(entry);
    if entries.len() > 0 {
        lemma_entries_push(entries.drop_first(), entry, k);
        assert(pushed.drop_first() =~= entries.drop_first().push(entry));
        assert(pushed[0] == entries[0]);
    } else {
        assert(pushed.drop_first() =~= Seq::<(String, JsonValue)>::empty());
        assert(entries_get(Seq::<(String, JsonValue)>::empty(), k) is None);
        assert(pushed[0] == entry);
    }
}

/// Sets the member `key`: replaces the value of its entry, or appends an entry.
pub fn json_set(entries: Vec<(String, JsonValue)>, key: &str, value: JsonValue) -> (r: Vec<(String, JsonValue)>)
    ensures
        forall|k: Seq<char>| #[trigger] entries_get(r@, k) == if k == key@ {
            Some(value)
        } else {
            entries_get(entries@, k)
        },
{
    let mut entries = entries;
    let ghost before = entries@;
    match entries_index(&entries, key) {
        Some(i) => {
            let old_key = entries[i].0.clone();
            entries.set(i, (old_key, value));
            assert forall|k: Seq<char>| #[trigger] entries_get(entries@, k) == if k == key@ {
                Some(value)
            } else {
                entries_get(before, k)
            } by {
                assert(entries@ =~= before.update(i as int, (before[i as int].0, value)));
                lemma_entries_update(before, i as int, value, k);
            }
        },
        None => {
            let owned_key = key.to_owned();
            let ghost entry = (owned_key, value);
            entries.push((owned_key, value));
            assert forall|k: Seq<char>| #[trigger] entries_get(entries@, k) == if k == key@ {
                Some(value)
            } else {
                entries_get(before, k)
            } by {
                lemma_entries_push(before, entry, k);
            }
        },
    }
    entries
}

} // verus!
