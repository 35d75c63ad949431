//! Trusted bindings to functions of std and of outside crates (regex, uuid, time).
use vstd::prelude::*;
use vstd::arithmetic::power::pow;
use crate::text::{ascii_lower, digit_char};
use regex::Regex;
use time::format_description::well_known::Rfc3339;
use time::OffsetDateTime;
use uuid::Uuid;

verus! {

// ---------------------------------------------------------------- std

/// Builds a `String` from characters through std's `FromIterator<&char>` for `String`,
/// which appends the characters in order.
#[verifier::external_body]
pub(crate) fn string_from_chars(v: &Vec<char>) -> (s: String)
    ensures
        s@ == v@,
{
    v.iter().collect()
}

/// What std's `str::to_lowercase` returns (full Unicode lowercase mapping).
pub uninterp spec fn unicode_lowercase(s: Seq<char>) -> Seq<char>;

/// Calls std's `str::to_lowercase`; its result depends on the input alone.
#[verifier::external_body]
pub(crate) fn to_unicode_lowercase(s: &str) -> (r: String)
    ensures
        r@ == unicode_lowercase(s@),
{
    s.to_lowercase()
}

// ---------------------------------------------------------------- regex

#[verifier::external_type_specification]
#[verifier::external_body]
pub struct ExRegex(Regex);

/// Whether `regex::Regex::new` accepts a pattern.
pub uninterp spec fn regex_compiles(pattern: Seq<char>) -> bool;

/// What `regex::Regex::is_match` answers for a compiled pattern and a haystack.
pub uninterp spec fn regex_matches(pattern: Seq<char>, haystack: Seq<char>) -> bool;

/// The realm-name pattern `^[a-zA-Z0-9_-]+$`.
pub open spec fn realm_name_pattern() -> Seq<char> {
    seq!['^', '[', 'a', '-', 'z', 'A', '-', 'Z', '0', '-', '9', '_', '-', ']', '+', '$']
}

/// The pattern of an all-digits text, `^\d+$`.
pub open spec fn digits_pattern() -> Seq<char> {
    seq!['^', '\\', 'd', '+', '$']
}

/// The pattern of a `YYYY-MM-DD` date, `^\d{4}-\d{2}-\d{2}$`.
pub open spec fn date_pattern() -> Seq<char> {
    seq![
        '^', '\\', 'd', '{', '4', '}', '-', '\\', 'd', '{', '2', '}', '-', '\\', 'd', '{', '2', '}', '$',
    ]
}

/// A character of the class `[a-zA-Z0-9_-]`.
pub open spec fn is_realm_name_char(c: char) -> bool {
    ||| ('a' <= c && c <= 'z')
    ||| ('A' <= c && c <= 'Z')
    ||| ('0' <= c && c <= '9')
    ||| c == '_'
    ||| c == '-'
}

/// A compiled regular expression together with the pattern it was compiled from.
pub struct CompiledRegex {
    source: String,
    inner: Regex,
}

impl CompiledRegex {
    /// The pattern this expression was compiled from.
    pub closed spec fn source(&self) -> Seq<char> {
        self.source@
    }
}

/// Calls `regex::Regex::new`. The result is `Some` exactly when the crate accepts the pattern;
/// the realm-name, digits and date patterns are valid syntax and are accepted.
#[verifier::external_body]
pub(crate) fn regex_new(pattern: &str) -> (r: Option<CompiledRegex>)
    ensures
        r is Some <==> regex_compiles(pattern@),
        r matches Some(c) ==> c.source() == pattern@,
        pattern@ == realm_name_pattern() || pattern@ == digits_pattern() || pattern@ == date_pattern() ==> r is Some,
{
    match Regex::new(pattern) {
        Ok(inner) => Some(CompiledRegex { source: pattern.to_string(), inner }),
        Err(_) => None,
    }
}

/// Calls `regex::Regex::is_match`. For the pattern `^[a-zA-Z0-9_-]+$` the crate's documented
/// semantics (anchored at both ends of the haystack, ASCII classes, one or more repetitions)
/// make a match exactly a non-empty haystack of class characters.
#[verifier::external_body]
pub(crate) fn regex_is_match(re: &CompiledRegex, haystack: &str) -> (b: bool)
    ensures
        b == regex_matches(re.source(), haystack@),
        re.source() == realm_name_pattern() ==> (b <==> (haystack@.len() > 0 && forall|i: int|
            0 <= i < haystack@.len() ==> is_realm_name_char(#[trigger] haystack@[i]))),
{
    re.inner.is_match(haystack)
}

// ---------------------------------------------------------------- uuid

/// An ASCII hexadecimal digit of either case.
pub open spec fn is_hex_char(c: char) -> bool {
    ||| ('0' <= c && c <= '9')
    ||| ('a' <= c && c <= 'f')
    ||| ('A' <= c && c <= 'F')
}

/// The value of a hexadecimal digit.
pub open spec fn hex_char_value(c: char) -> nat {
    if '0' <= c && c <= '9' {
        (c as nat - '0' as nat) as nat
    } else if 'a' <= c && c <= 'f' {
        (c as nat - 'a' as nat + 10) as nat
    } else {
        (c as nat - 'A' as nat + 10) as nat
    }
}

/// The big-endian value of a sequence of hexadecimal digits.
pub open spec fn hex_value(s: Seq<char>) -> nat
    decreases s.len(),
{
    if s.len() == 0 {
        0
    } else {
        hex_value(s.drop_last()) * 16 + hex_char_value(s.last())
    }
}

/// The 32 digit characters of an 8-4-4-4-12 hyphenated form.
pub open spec fn hyphenated_digits(s: Seq<char>) -> Option<Seq<char>> {
    if s.len() == 36 && s[8] == '-' && s[13] == '-' && s[18] == '-' && s[23] == '-' {
        Some(
            s.subrange(0, 8) + s.subrange(9, 13) + s.subrange(14, 18) + s.subrange(19, 23)
                + s.subrange(24, 36),
        )
    } else {
        None
    }
}

/// `urn:uuid:`
pub open spec fn urn_prefix() -> Seq<char> {
    seq!['u', 'r', 'n', ':', 'u', 'u', 'i', 'd', ':']
}

/// The digit characters of the simple, hyphenated, braced and URN forms that
/// `Uuid::parse_str` accepts.
pub open spec fn uuid_digit_chars(s: Seq<char>) -> Option<Seq<char>> {
    if s.len() == 32 {
        Some(s)
    } else if s.len() == 36 {
        hyphenated_digits(s)
    } else if s.len() == 38 && s[0] == '{' && s[37] == '}' {
        hyphenated_digits(s.subrange(1, 37))
    } else if s.len() == 45 && ascii_lower(s.subrange(0, 9)) == urn_prefix() {
        hyphenated_digits(s.subrange(9, 45))
    } else {
        None
    }
}

/// The 128-bit value `Uuid::parse_str` reads from a string, if it accepts it.
pub open spec fn uuid_parse_value(s: Seq<char>) -> Option<u128> {
    match uuid_digit_chars(s) {
        Some(d) => if forall|i: int| 0 <= i < d.len() ==> is_hex_char(#[trigger] d[i]) {
            Some(hex_value(d) as u128)
        } else {
            None
        },
        None => None,
    }
}

/// A lowercase hexadecimal digit character.
pub open spec fn lower_hex_char(d: nat) -> char {
    if d < 10 {
        digit_char(d)
    } else {
        ((d - 10 + 97) as u32) as char
    }
}

/// The `j`-th hexadecimal digit (most significant first) of a 128-bit value.
pub open spec fn uuid_nibble(v: u128, j: int) -> nat {
    ((v as nat) / (pow(16, (31 - j) as nat) as nat)) % 16
}

/// Number of hyphens before position `i` of the hyphenated form.
pub open spec fn hyphens_before(i: int) -> int {
    if i < 8 {
        0
    } else if i < 13 {
        1
    } else if i < 18 {
        2
    } else if i < 23 {
        3
    } else {
        4
    }
}

/// The lowercase hyphenated form (8-4-4-4-12) of a 128-bit value.
pub open spec fn uuid_hyphenated(v: u128) -> Seq<char> {
    Seq::new(
        36,
        |i: int|
            if i == 8 || i == 13 || i == 18 || i == 23 {
                '-'
            } else {
                lower_hex_char(uuid_nibble(v, i - hyphens_before(i)))
            },
    )
}

/// Calls `uuid::Uuid::parse_str` and reads the parsed value with `Uuid::as_u128`
/// (big-endian). The crate accepts 32 hex digits, the hyphenated form, the braced
/// hyphenated form and the `urn:uuid:` form (prefix in any ASCII case), with hex
/// digits of either case.
#[verifier::external_body]
pub(crate) fn uuid_parse(s: &str) -> (r: Option<u128>)
    ensures
        r == uuid_parse_value(s@),
{
    match Uuid::parse_str(s) {
        Ok(u) => Some(u.as_u128()),
        Err(_) => None,
    }
}

/// Formats a value with `Uuid::from_u128` and `Display`, which the crate documents as the
/// lowercase hyphenated form.
#[verifier::external_body]
pub(crate) fn uuid_to_string(v: u128) -> (s: String)
    ensures
        s@ == uuid_hyphenated(v),
{
    Uuid::from_u128(v).to_string()
}

// ---------------------------------------------------------------- time

/// The Unix time in nanoseconds of an RFC 3339 timestamp, as `time` parses it.
pub uninterp spec fn rfc3339_unix_nanos(text: Seq<char>) -> Option<i128>;

/// Calls `time::OffsetDateTime::parse` with the `Rfc3339` description and reads the result
/// with `unix_timestamp_nanos`; `None` when the crate rejects the text.
#[verifier::external_body]
pub(crate) fn parse_rfc3339_unix_nanos(text: &str) -> (r: Option<i128>)
    ensures
        r == rfc3339_unix_nanos(text@),
{
    match OffsetDateTime::parse(text, &Rfc3339) {
        Ok(t) => Some(t.unix_timestamp_nanos()),
        Err(_) => None,
    }
}

} // verus!
