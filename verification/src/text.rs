//! Character-level text helpers used by validation, search and message building.
use vstd::prelude::*;
use crate::outside::string_from_chars;

verus! {

/// ASCII uppercase letter.
pub open spec fn is_ascii_upper(c: char) -> bool {
    'A' <= c && c <= 'Z'
}

/// ASCII decimal digit.
pub open spec fn is_ascii_digit(c: char) -> bool {
    '0' <= c && c <= '9'
}

/// ASCII lowercase mapping of a single character.
pub open spec fn ascii_lower_char(c: char) -> char {
    if is_ascii_upper(c) {
        ((c as u32) + 32) as char
    } else {
        c
    }
}

/// ASCII lowercase mapping of a character sequence.
pub open spec fn ascii_lower(s: Seq<char>) -> Seq<char> {
    Seq::new(s.len(), |i: int| ascii_lower_char(s[i]))
}

/// The characters that Unicode classifies as `White_Space`.
pub open spec fn is_white_space(c: char) -> bool {
    ||| ('\u{9}' <= c && c <= '\u{d}')
    ||| c == ' '
    ||| c == '\u{85}'
    ||| c == '\u{a0}'
    ||| c == '\u{1680}'
    ||| ('\u{2000}' <= c && c <= '\u{200a}')
    ||| c == '\u{2028}'
    ||| c == '\u{2029}'
    ||| c == '\u{202f}'
    ||| c == '\u{205f}'
    ||| c == '\u{3000}'
}

/// Index of the first character at or after `i` that is not white space (or the length).
pub open spec fn first_non_ws(s: Seq<char>, i: int) -> int
    decreases s.len() - i,
{
    if i < 0 || i >= s.len() {
        s.len() as int
    } else if is_white_space(s[i]) {
        first_non_ws(s, i + 1)
    } else {
        i
    }
}

/// End (exclusive) of the last non-white-space character in `s[lo..j]`, or `lo`.
pub open spec fn last_non_ws_end(s: Seq<char>, lo: int, j: int) -> int
    decreases j - lo,
{
    if j <= lo || j > s.len() {
        lo
    } else if is_white_space(s[j - 1]) {
        last_non_ws_end(s, lo, j - 1)
    } else {
        j
    }
}

/// `s` with leading and trailing white space removed.
pub open spec fn trimmed(s: Seq<char>) -> Seq<char> {
    let lo = first_non_ws(s, 0);
    s.subrange(lo, last_non_ws_end(s, lo, s.len() as int))
}

/// `needle` occurs in `hay` as a contiguous run.
pub open spec fn seq_contains(hay: Seq<char>, needle: Seq<char>) -> bool {
    exists|i: int| 0 <= i && i + needle.len() <= hay.len() && #[trigger] hay.subrange(i, i + needle.len()) == needle
}

/// `hay` begins with `prefix`.
pub open spec fn seq_starts_with(hay: Seq<char>, prefix: Seq<char>) -> bool {
    prefix.len() <= hay.len() && hay.subrange(0, prefix.len() as int) == prefix
}

/// The character of a decimal digit value.
pub open spec fn digit_char(d: nat) -> char {
    ((d + 48) as u32) as char
}

/// Decimal representation of a natural number, without leading zeros.
pub open spec fn decimal(n: nat) -> Seq<char>
    decreases n,
{
    if n < 10 {
        seq![digit_char(n)]
    } else {
        decimal(n / 10).push(digit_char(n % 10))
    }
}

/// Decimal representation of an integer, with a leading minus sign when negative.
pub open spec fn signed_decimal(n: int) -> Seq<char> {
    if n < 0 {
        seq!['-'] + decimal((-n) as nat)
    } else {
        decimal(n as nat)
    }
}

/// Elements of `list` separated by `sep`.
pub open spec fn joined(list: Seq<Seq<char>>, sep: Seq<char>) -> Seq<char>
    decreases list.len(),
{
    if list.len() == 0 {
        Seq::<char>::empty()
    } else if list.len() == 1 {
        list[0]
    } else {
        joined(list.drop_last(), sep) + sep + list.last()
    }
}

/// The views of a vector of strings.
pub open spec fn string_views(v: Seq<String>) -> Seq<Seq<char>> {
    Seq::new(v.len(), |i: int| v[i]@)
}

/// Lowercases one character when it is an ASCII uppercase letter.
pub fn to_ascii_lower_char(c: char) -> (r: char)
    ensures
        r == ascii_lower_char(c),
{
    if 'A' <= c && c <= 'Z' {
        let b: u8 = c as u8;
        let l: u8 = b + 32;
        l as char
    } else {
        c
    }
}

/// Whether a character is Unicode white space.
pub fn char_is_white_space(c: char) -> (r: bool)
    ensures
        r == is_white_space(c),
{
    ('\u{9}' <= c && c <= '\u{d}') || c == ' ' || c == '\u{85}' || c == '\u{a0}' || c == '\u{1680}'
        || ('\u{2000}' <= c && c <= '\u{200a}') || c == '\u{2028}' || c == '\u{2029}' || c
        == '\u{202f}' || c == '\u{205f}' || c == '\u{3000}'
}

/// Collects the characters of a string.
pub fn chars_of(s: &str) -> (v: Vec<char>)
    ensures
        v@ == s@,
{
    let mut v: Vec<char> = Vec::new();
    for c in it: s.chars()
        invariant
            v@ == it.seq().take(it.index() as int),
            it.seq() == s@,
    {
        v.push(c);
    }
    v
}

/// ASCII-lowercases a string.
pub fn ascii_lowercase(s: &str) -> (r: String)
    ensures
        r@ == ascii_lower(s@),
{
    let cs = chars_of(s);
    let mut out: Vec<char> = Vec::new();
    let n = cs.len();
    for i in 0..n
        invariant
            n == cs@.len(),
            cs@ == s@,
            out@ == ascii_lower(s@).take(i as int),
    {
        let c = to_ascii_lower_char(cs[i]);
        out.push(c);
        assert(out@ =~= ascii_lower(s@).take(i + 1));
    }
    assert(out@ =~= ascii_lower(s@));
    string_from_chars(&out)
}

/// Removes leading and trailing white space.
pub fn trim(s: &str) -> (r: String)
    ensures
        r@ == trimmed(s@),
{
    let cs = chars_of(s);
    let n = cs.len();
    let mut lo: usize = 0;
    while lo < n && char_is_white_space(cs[lo])
        invariant
            n == cs@.len(),
            cs@ == s@,
            lo <= n,
            first_non_ws(s@, lo as int) == first_non_ws(s@, 0),
        decreases n - lo,
    {
        lo = lo + 1;
    }
    let mut hi: usize = n;
    while hi > lo && char_is_white_space(cs[hi - 1])
        invariant
            n == cs@.len(),
            cs@ == s@,
            lo <= hi <= n,
            lo == first_non_ws(s@, 0),
            last_non_ws_end(s@, lo as int, hi as int) == last_non_ws_end(s@, lo as int, n as int),
        decreases hi - lo,
    {
        hi = hi - 1;
    }
    let mut out: Vec<char> = Vec::new();
    let mut k: usize = lo;
    while k < hi
        invariant
            n == cs@.len(),
            cs@ == s@,
            lo <= k <= hi <= n,
            out@ == s@.subrange(lo as int, k as int),
        decreases hi - k,
    {
        out.push(cs[k]);
        assert(out@ =~= s@.subrange(lo as int, k + 1));
        k = k + 1;
    }
    string_from_chars(&out)
}

/// Whether `hay[start..start + needle.len()]` equals `needle`.
fn matches_at(hay: &Vec<char>, needle: &Vec<char>, start: usize) -> (r: bool)
    requires
        start + needle@.len() <= hay@.len(),
    ensures
        r == (hay@.subrange(start as int, start + needle@.len()) == needle@),
{
    let m = needle.len();
    let hl = hay.len();
    let mut j: usize = 0;
    while j < m
        invariant
            m == needle@.len(),
            hl == hay@.len(),
            start + m <= hay@.len(),
            j <= m,
            hay@.subrange(start as int, start + j) == needle@.subrange(0, j as int),
        decreases m - j,
    {
        if hay[start + j] != needle[j] {
            assert(hay@.subrange(start as int, start + m)[j as int] != needle@[j as int]);
            return false;
        }
        assert(hay@.subrange(start as int, start + j + 1) =~= needle@.subrange(0, j + 1));
        j = j + 1;
    }
    assert(needle@.subrange(0, m as int) =~= needle@);
    true
}

/// Whether `needle` occurs in `hay`.
pub fn vec_contains_seq(hay: &Vec<char>, needle: &Vec<char>) -> (r: bool)
    ensures
        r == seq_contains(hay@, needle@),
{
    let n = hay.len();
    let m = needle.len();
    if m > n {
        return false;
    }
    if m == 0 {
        assert(hay@.subrange(0int, 0int + needle@.len()) =~= needle@);
        return true;
    }
    let mut i: usize = 0;
    while i <= n - m
        invariant
            n == hay@.len(),
            m == needle@.len(),
            1 <= m <= n,
            i <= n - m + 1,
            forall|k: int| 0 <= k < i ==> #[trigger] hay@.subrange(k, k + m) != needle@,
        decreases n - m + 1 - i,
    {
        if matches_at(hay, needle, i) {
            return true;
        }
        i = i + 1;
    }
    false
}

/// Whether `hay` begins with `prefix`.
pub fn vec_starts_with(hay: &Vec<char>, prefix: &Vec<char>) -> (r: bool)
    ensures
        r == seq_starts_with(hay@, prefix@),
{
    if prefix.len() > hay.len() {
        return false;
    }
    matches_at(hay, prefix, 0)
}

/// Whether `s` contains the character `c`.
pub fn str_has_char(s: &str, c: char) -> (r: bool)
    ensures
        r == s@.contains(c),
{
    let cs = chars_of(s);
    let n = cs.len();
    for i in 0..n
        invariant
            n == cs@.len(),
            cs@ == s@,
            forall|k: int| 0 <= k < i ==> cs@[k] != c,
    {
        if cs[i] == c {
            return true;
        }
    }
    false
}

/// Whether `s` contains `needle`.
pub fn str_contains(s: &str, needle: &str) -> (r: bool)
    ensures
        r == seq_contains(s@, needle@),
{
    let h = chars_of(s);
    let n = chars_of(needle);
    vec_contains_seq(&h, &n)
}

/// Whether `s` begins with `prefix`.
pub fn str_starts_with(s: &str, prefix: &str) -> (r: bool)
    ensures
        r == seq_starts_with(s@, prefix@),
{
    let h = chars_of(s);
    let p = chars_of(prefix);
    vec_starts_with(&h, &p)
}

/// Equality of two strings.
pub fn str_eq(a: &str, b: &str) -> (r: bool)
    ensures
        r == (a@ == b@),
{
    let x = chars_of(a);
    let y = chars_of(b);
    if x.len() != y.len() {
        return false;
    }
    let r = matches_at(&x, &y, 0);
    assert(x@.subrange(0, y@.len() as int) =~= x@);
    r
}

/// Copies a string.
pub fn owned(s: &str) -> (r: String)
    ensures
        r@ == s@,
{
    s.to_owned()
}

/// Copies a list of strings.
pub fn copy_strings(v: &[String]) -> (r: Vec<String>)
    ensures
        r@ == v@,
{
    let mut out: Vec<String> = Vec::new();
    let n = v.len();
    for i in 0..n
        invariant
            n == v@.len(),
            out@ == v@.take(i as int),
    {
        out.push(v[i].clone());
        assert(out@ =~= v@.take(i + 1));
    }
    assert(v@.take(n as int) =~= v@);
    out
}

/// The character of a decimal digit.
fn digit_to_char(d: u128) -> (c: char)
    requires
        d < 10,
    ensures
        c == digit_char(d as nat),
{
    let b: u8 = d as u8;
    let r: u8 = b + 48;
    assert(r as u32 == (d + 48) as u32);
    r as char
}

/// Decimal digits of an unsigned integer.
pub fn decimal_chars(n: u128) -> (v: Vec<char>)
    ensures
        v@ == decimal(n as nat),
    decreases n,
{
    if n < 10 {
        let mut v: Vec<char> = Vec::new();
        v.push(digit_to_char(n));
        assert(v@ =~= seq![digit_char(n as nat)]);
        v
    } else {
        let mut v = decimal_chars(n / 10);
        v.push(digit_to_char(n % 10));
        v
    }
}

/// Decimal text of an unsigned 32-bit integer.
pub fn u32_to_decimal(n: u32) -> (s: String)
    ensures
        s@ == decimal(n as nat),
{
    let v = decimal_chars(n as u128);
    string_from_chars(&v)
}

/// Decimal text of a signed 128-bit integer.
pub fn i128_to_decimal(n: i128) -> (s: String)
    ensures
        s@ == signed_decimal(n as int),
{
    if n < 0 {
        let m: i128 = n + 1;
        let mag: u128 = ((-m) as u128) + 1;
        let digits = decimal_chars(mag);
        let mut v: Vec<char> = Vec::new();
        v.push('-');
        let mut i: usize = 0;
        while i < digits.len()
            invariant
                v@ == seq!['-'] + digits@.take(i as int),
                i <= digits@.len(),
            decreases digits@.len() - i,
        {
            v.push(digits[i]);
            assert(v@ =~= seq!['-'] + digits@.take(i + 1));
            i = i + 1;
        }
        assert(digits@.take(digits@.len() as int) =~= digits@);
        string_from_chars(&v)
    } else {
        let v = decimal_chars(n as u128);
        string_from_chars(&v)
    }
}

/// Joins strings with a separator.
pub fn join_strings(list: &[String], sep: &str) -> (r: String)
    ensures
        r@ == joined(string_views(list@), sep@),
{
    let mut res = String::new();
    let ghost views = string_views(list@);
    let n = list.len();
    for i in 0..n
        invariant
            n == list@.len(),
            views == string_views(list@),
            res@ == joined(views.take(i as int), sep@),
    {
        if i != 0 {
            res.append(sep);
        }
        res.append(list[i].as_str());
        assert(views.take(i + 1).drop_last() =~= views.take(i as int));
        if i == 0 {
            assert(views.take(1).len() == 1);
        }
    }
    assert(views.take(n as int) =~= views);
    res
}

} // verus!
