//! Client search: scoring candidates against a term, the deterministic ranking of results,
//! and the request checks and merging that `clients.search` performs around gateway calls.
use vstd::prelude::*;
use crate::clients::ClientSummary;
use crate::errors::{
    GatewayFailure, McpError, ToolError, gateway_failure_error, reports_gateway_failure,
    tool_error_with_context,
};
use crate::json::{JsonNumber, JsonValue, entry_views, field, jstr, lemma_entries_get_at, string_text};
use crate::order::{seq_lt, str_lt, lemma_lt_irreflexive, lemma_lt_transitive, lemma_lt_asymmetric};
use crate::outside::{uuid_parse, uuid_parse_value, uuid_to_string, uuid_hyphenated};
use crate::text::{
    ascii_lower, ascii_lowercase, trim, trimmed, seq_contains, seq_starts_with, str_contains,
    str_eq, str_starts_with, u32_to_decimal, decimal,
};

verus! {

/// The text of an optional string, empty when absent.
pub open spec fn opt_text(o: Option<String>) -> Seq<char> {
    match o {
        Some(s) => s@,
        None => Seq::empty(),
    }
}

/// The search term as it is compared: ASCII-lowercased, then trimmed.
pub open spec fn normalized_term(term: Seq<char>) -> Seq<char> {
    trimmed(ascii_lower(term))
}

/// Normalizes a search term.
pub fn normalized_client_search_term(term: &str) -> (r: String)
    ensures
        r@ == normalized_term(term@),
{
    let lowered = ascii_lowercase(term);
    trim(lowered.as_str())
}

/// The score of a client for a term, compared without ASCII case: an exact id is best, then
/// an exact `clientId`, an exact name, an id prefix, an id substring, a `clientId` or name
/// prefix, and a `clientId` or name substring; no match (or an empty term) scores 0.
pub open spec fn search_score(c: ClientSummary, term: Seq<char>) -> u32 {
    let id = ascii_lower(opt_text(c.id));
    let client_id = ascii_lower(opt_text(c.client_id));
    let name = ascii_lower(opt_text(c.name));
    let t = ascii_lower(term);
    if term.len() == 0 {
        0
    } else if id == t {
        220
    } else if client_id == t {
        200
    } else if name == t {
        180
    } else if seq_starts_with(id, t) {
        160
    } else if seq_contains(id, t) {
        120
    } else if seq_starts_with(client_id, t) || seq_starts_with(name, t) {
        140
    } else if seq_contains(client_id, t) || seq_contains(name, t) {
        100
    } else {
        0
    }
}

/// A term occurs in a text, ignoring ASCII case.
pub open spec fn occurs_in(text: Option<String>, term: Seq<char>) -> bool {
    seq_contains(ascii_lower(opt_text(text)), ascii_lower(term))
}

/// A text equals a term, ignoring ASCII case.
pub open spec fn equals_term(text: Option<String>, term: Seq<char>) -> bool {
    ascii_lower(opt_text(text)) == ascii_lower(term)
}

proof fn lemma_prefix_occurs(hay: Seq<char>, needle: Seq<char>)
    ensures
        seq_starts_with(hay, needle) ==> seq_contains(hay, needle),
        hay == needle ==> seq_starts_with(hay, needle),
{
    if seq_starts_with(hay, needle) {
        assert(hay.subrange(0, 0 + needle.len() as int) == needle);
    }
    if hay == needle {
        assert(hay.subrange(0, needle.len() as int) =~= needle);
    }
}

/// What a score means: a client scores above zero exactly when the (non-empty) term occurs in
/// its id, `clientId` or name, ignoring ASCII case; an exact id scores at least as high as any
/// client; and an exact `clientId` scores higher than any client with neither an exact id nor
/// an exact `clientId`.
pub proof fn law_search_score_meaning(c: ClientSummary, other: ClientSummary, term: Seq<char>)
    ensures
        search_score(c, term) > 0 <==> (term.len() > 0 && (occurs_in(c.id, term) || occurs_in(c.client_id, term)
            || occurs_in(c.name, term))),
        term.len() > 0 && equals_term(c.id, term) ==> search_score(c, term) >= search_score(other, term),
        term.len() > 0 && equals_term(c.client_id, term) && !equals_term(other.id, term) && !equals_term(
            other.client_id,
            term,
        ) ==> search_score(c, term) > search_score(other, term),
{
    let t = ascii_lower(term);
    lemma_prefix_occurs(ascii_lower(opt_text(c.id)), t);
    lemma_prefix_occurs(ascii_lower(opt_text(c.client_id)), t);
    lemma_prefix_occurs(ascii_lower(opt_text(c.name)), t);
}

/// The ASCII-lowercased text of an optional string.
fn lowered(o: &Option<String>) -> (r: String)
    ensures
        r@ == ascii_lower(opt_text(*o)),
{
    match o {
        Some(s) => ascii_lowercase(s.as_str()),
        None => {
            let r = String::new();
            assert(r@ =~= ascii_lower(Seq::<char>::empty()));
            r
        },
    }
}

/// Scores a client for a search term.
pub fn client_search_score(candidate: &ClientSummary, term: &str) -> (r: u32)
    ensures
        r == search_score(*candidate, term@),
{
    if term.is_empty() {
        return 0;
    }
    let id = lowered(&candidate.id);
    let client_id = lowered(&candidate.client_id);
    let name = lowered(&candidate.name);
    let t = ascii_lowercase(term);
    if str_eq(id.as_str(), t.as_str()) {
        return 220;
    }
    if str_eq(client_id.as_str(), t.as_str()) {
        return 200;
    }
    if str_eq(name.as_str(), t.as_str()) {
        return 180;
    }
    if str_starts_with(id.as_str(), t.as_str()) {
        return 160;
    }
    if str_contains(id.as_str(), t.as_str()) {
        return 120;
    }
    if str_starts_with(client_id.as_str(), t.as_str()) || str_starts_with(name.as_str(), t.as_str()) {
        return 140;
    }
    if str_contains(client_id.as_str(), t.as_str()) || str_contains(name.as_str(), t.as_str()) {
        return 100;
    }
    0
}

/// `a` ranks strictly before `b`: a higher score, then a smaller `clientId`, then a smaller id
/// (absent texts compare as empty).
pub open spec fn ranks_before(a: (u32, ClientSummary), b: (u32, ClientSummary)) -> bool {
    ||| a.0 > b.0
    ||| (a.0 == b.0 && seq_lt(opt_text(a.1.client_id), opt_text(b.1.client_id)))
    ||| (a.0 == b.0 && opt_text(a.1.client_id) == opt_text(b.1.client_id) && seq_lt(
        opt_text(a.1.id),
        opt_text(b.1.id),
    ))
}

/// The position at which `x` is inserted into a ranked list: before the first entry it ranks
/// before, hence after every entry it ties with.
pub open spec fn insert_position(sorted: Seq<(u32, ClientSummary)>, x: (u32, ClientSummary)) -> int
    decreases sorted.len(),
{
    if sorted.len() == 0 {
        0
    } else if ranks_before(x, sorted.last()) {
        insert_position(sorted.drop_last(), x)
    } else {
        sorted.len() as int
    }
}

/// Scored candidates in rank order; candidates that tie keep their order (a stable sort).
pub open spec fn ranked(scored: Seq<(u32, ClientSummary)>) -> Seq<(u32, ClientSummary)>
    decreases scored.len(),
{
    if scored.len() == 0 {
        Seq::empty()
    } else {
        let rest = ranked(scored.drop_last());
        rest.insert(insert_position(rest, scored.last()), scored.last())
    }
}

/// The candidates that match the term at all, each with its score, in input order.
pub open spec fn scored_matches(candidates: Seq<ClientSummary>, term: Seq<char>) -> Seq<(u32, ClientSummary)>
    decreases candidates.len(),
{
    if candidates.len() == 0 {
        Seq::empty()
    } else {
        let rest = scored_matches(candidates.drop_last(), term);
        let c = candidates.last();
        if search_score(c, term) > 0 {
            rest.push((search_score(c, term), c))
        } else {
            rest
        }
    }
}

/// The number of results returned: the limit when given, otherwise 100.
pub open spec fn result_limit(limit: Option<u32>) -> nat {
    match limit {
        Some(l) => l as nat,
        None => 100,
    }
}

/// The search result: matching candidates in rank order, at most the limit of them.
pub open spec fn ranked_results(candidates: Seq<ClientSummary>, term: Seq<char>, limit: Option<u32>) -> Seq<
    ClientSummary,
> {
    let r = ranked(scored_matches(candidates, normalized_term(term)));
    let n = if r.len() < result_limit(limit) { r.len() as int } else { result_limit(limit) as int };
    Seq::new(n as nat, |i: int| r[i].1)
}

/// Whether one scored candidate ranks before another.
fn rank_key_before(a_score: u32, a: &ClientSummary, b_score: u32, b: &ClientSummary) -> (r: bool)
    ensures
        r == ranks_before((a_score, *a), (b_score, *b)),
{
    if a_score != b_score {
        return a_score > b_score;
    }
    let a_cid = opt_str(&a.client_id);
    let b_cid = opt_str(&b.client_id);
    if str_lt(a_cid, b_cid) {
        return true;
    }
    if !str_eq(a_cid, b_cid) {
        return false;
    }
    str_lt(opt_str(&a.id), opt_str(&b.id))
}

/// The text of an optional string, empty when absent.
fn opt_str(o: &Option<String>) -> (r: &str)
    ensures
        r@ == opt_text(*o),
{
    match o {
        Some(s) => s.as_str(),
        None => {
            proof {
                reveal_strlit("");
            }
            ""
        },
    }
}

/// Inserts a scored candidate into a ranked list after every entry it does not rank before.
fn insert_ranked(sorted: &mut Vec<(u32, ClientSummary)>, x: (u32, ClientSummary))
    ensures
        final(sorted)@ == old(sorted)@.insert(insert_position(old(sorted)@, x), x),
{
    let ghost s0 = sorted@;
    let mut p: usize = sorted.len();
    assert(s0.take(p as int) =~= s0);
    while p > 0 && rank_key_before(x.0, &x.1, sorted[p - 1].0, &sorted[p - 1].1)
        invariant
            sorted@ == s0,
            p <= s0.len(),
            insert_position(s0, x) == insert_position(s0.take(p as int), x),
        decreases p,
    {
        assert(s0.take(p as int).drop_last() =~= s0.take(p - 1));
        assert(s0.take(p as int).last() == s0[p - 1]);
        p = p - 1;
    }
    proof {
        if p > 0 {
            assert(s0.take(p as int).last() == s0[p - 1]);
        }
        assert(s0.take(p as int).len() == p);
    }
    sorted.insert(p, x);
}

/// Ranks candidates for a search term: candidates that do not match are dropped, the rest are
/// ordered by score (highest first), then `clientId`, then id, keeping the input order among
/// ties, and at most `limit` (by default 100) are returned.
pub fn rank_client_search_results(candidates: Vec<ClientSummary>, term: &str, limit: Option<u32>) -> (r: Vec<
    ClientSummary,
>)
    ensures
        r@ == ranked_results(candidates@, term@, limit),
{
    let norm = normalized_client_search_term(term);
    let ghost t = norm@;
    let mut sorted: Vec<(u32, ClientSummary)> = Vec::new();
    let mut scored_so_far: Ghost<Seq<(u32, ClientSummary)>> = Ghost(Seq::empty());
    let n = candidates.len();
    for i in 0..n
        invariant
            n == candidates@.len(),
            t == norm@,
            scored_so_far@ == scored_matches(candidates@.take(i as int), t),
            sorted@ == ranked(scored_so_far@),
    {
        let c = candidates[i].copied();
        let score = client_search_score(&c, norm.as_str());
        assert(candidates@.take(i + 1).drop_last() =~= candidates@.take(i as int));
        assert(candidates@.take(i + 1).last() == candidates@[i as int]);
        if score > 0 {
            proof {
                assert(ranked(scored_so_far@.push((score, c))).len() >= 0);
                assert(scored_so_far@.push((score, c)).drop_last() =~= scored_so_far@);
            }
            insert_ranked(&mut sorted, (score, c));
            proof {
                scored_so_far@ = scored_so_far@.push((score, c));
            }
        }
    }
    assert(candidates@.take(n as int) =~= candidates@);
    let max: usize = match limit {
        Some(l) => l as usize,
        None => 100,
    };
    let mut out: Vec<ClientSummary> = Vec::new();
    let mut k: usize = 0;
    while k < sorted.len() && k < max
        invariant
            k <= sorted@.len(),
            k <= max,
            max == result_limit(limit),
            out@ == Seq::new(k as nat, |i: int| sorted@[i].1),
        decreases sorted@.len() - k,
    {
        out.push(sorted[k].1.copied());
        assert(out@ =~= Seq::new((k + 1) as nat, |i: int| sorted@[i].1));
        k = k + 1;
    }
    assert(out@ =~= ranked_results(candidates@, term@, limit));
    out
}

/// Ranking is a strict order on scored candidates: never reflexive.
proof fn lemma_ranks_before_irreflexive(a: (u32, ClientSummary))
    ensures
        !ranks_before(a, a),
{
    lemma_lt_irreflexive(opt_text(a.1.client_id));
    lemma_lt_irreflexive(opt_text(a.1.id));
}

/// Ranking is transitive.
proof fn lemma_ranks_before_transitive(a: (u32, ClientSummary), b: (u32, ClientSummary), c: (u32, ClientSummary))
    requires
        ranks_before(a, b),
        ranks_before(b, c),
    ensures
        ranks_before(a, c),
{
    let (ac, bc, cc) = (opt_text(a.1.client_id), opt_text(b.1.client_id), opt_text(c.1.client_id));
    let (ai, bi, ci) = (opt_text(a.1.id), opt_text(b.1.id), opt_text(c.1.id));
    if a.0 == b.0 && b.0 == c.0 {
        if seq_lt(ac, bc) && seq_lt(bc, cc) {
            lemma_lt_transitive(ac, bc, cc);
        } else if seq_lt(ai, bi) && seq_lt(bi, ci) {
            lemma_lt_transitive(ai, bi, ci);
        }
    }
}

/// A list in which no entry ranks before an earlier one.
pub open spec fn rank_ordered(s: Seq<(u32, ClientSummary)>) -> bool {
    forall|i: int, j: int| 0 <= i < j < s.len() ==> !ranks_before(#[trigger] s[j], #[trigger] s[i])
}

/// Where insertion puts `x`: no earlier entry ranks after it, and it ranks before the entry
/// that follows it.
proof fn lemma_insert_position(sorted: Seq<(u32, ClientSummary)>, x: (u32, ClientSummary))
    requires
        rank_ordered(sorted),
    ensures
        0 <= insert_position(sorted, x) <= sorted.len(),
        forall|i: int| 0 <= i < insert_position(sorted, x) ==> !ranks_before(x, #[trigger] sorted[i]),
        insert_position(sorted, x) < sorted.len() ==> ranks_before(x, sorted[insert_position(sorted, x)]),
    decreases sorted.len(),
{
    if sorted.len() > 0 {
        let rest = sorted.drop_last();
        assert(rank_ordered(rest)) by {
            assert forall|i: int, j: int| 0 <= i < j < rest.len() implies !ranks_before(#[trigger] rest[j], #[trigger] rest[i]) by {
                assert(rest[j] == sorted[j] && rest[i] == sorted[i]);
            }
        }
        lemma_insert_position(rest, x);
        if ranks_before(x, sorted.last()) {
            let p = insert_position(rest, x);
            if p < rest.len() {
                assert(rest[p] == sorted[p]);
            }
            assert forall|i: int| 0 <= i < p implies !ranks_before(x, #[trigger] sorted[i]) by {
                assert(rest[i] == sorted[i]);
            }
        } else {
            assert forall|i: int| 0 <= i < sorted.len() implies !ranks_before(x, #[trigger] sorted[i]) by {
                if i < sorted.len() - 1 && ranks_before(x, sorted[i]) {
                    let last = sorted.last();
                    assert(!ranks_before(last, sorted[i]));
                    // x ranks before sorted[i] but not before the last entry, which does not
                    // rank before sorted[i]: with a total key this is impossible.
                    lemma_rank_total(x, sorted[i], last);
                }
            }
        }
    }
}

/// If `x` ranks before `b` and `c` does not rank before `b`, then `x` ranks before `c`.
proof fn lemma_rank_total(x: (u32, ClientSummary), b: (u32, ClientSummary), c: (u32, ClientSummary))
    requires
        ranks_before(x, b),
        !ranks_before(c, b),
    ensures
        ranks_before(x, c),
{
    let (xc, bc, cc) = (opt_text(x.1.client_id), opt_text(b.1.client_id), opt_text(c.1.client_id));
    let (xi, bi, ci) = (opt_text(x.1.id), opt_text(b.1.id), opt_text(c.1.id));
    crate::order::lemma_lt_trichotomy(bc, cc);
    crate::order::lemma_lt_trichotomy(bi, ci);
    crate::order::lemma_lt_trichotomy(xc, cc);
    crate::order::lemma_lt_trichotomy(xi, ci);
    if seq_lt(xc, bc) && seq_lt(bc, cc) {
        lemma_lt_transitive(xc, bc, cc);
    }
    if seq_lt(xi, bi) && seq_lt(bi, ci) {
        lemma_lt_transitive(xi, bi, ci);
    }
    lemma_lt_asymmetric(xc, cc);
    lemma_lt_asymmetric(xi, ci);
    lemma_lt_asymmetric(bc, cc);
    lemma_lt_asymmetric(bi, ci);
    if seq_lt(xc, cc) || seq_lt(cc, xc) {
    }
}

/// The whole key a scored candidate is ranked by: score, `clientId` and id (absent texts as
/// empty).
pub open spec fn rank_key(x: (u32, ClientSummary)) -> (u32, Seq<char>, Seq<char>) {
    (x.0, opt_text(x.1.client_id), opt_text(x.1.id))
}

/// The scored candidates whose whole rank key is `k`.
pub open spec fn has_rank_key(k: (u32, Seq<char>, Seq<char>)) -> spec_fn((u32, ClientSummary)) -> bool {
    |x: (u32, ClientSummary)| rank_key(x) == k
}

/// Filtering keeps nothing when no element satisfies the predicate.
proof fn lemma_filter_none(s: Seq<(u32, ClientSummary)>, pred: spec_fn((u32, ClientSummary)) -> bool)
    requires
        forall|i: int| 0 <= i < s.len() ==> !pred(#[trigger] s[i]),
    ensures
        s.filter(pred) == Seq::<(u32, ClientSummary)>::empty(),
    decreases s.len(),
{
    reveal(Seq::filter);
    if s.len() > 0 {
        let init = s.drop_last();
        assert forall|i: int| 0 <= i < init.len() implies !pred(#[trigger] init[i]) by {
            assert(init[i] == s[i]);
        }
        lemma_filter_none(init, pred);
        assert(!pred(s[s.len() - 1]));
    } else {
        assert(s.filter(pred) =~= Seq::<(u32, ClientSummary)>::empty());
    }
}

/// Ranking is stable: the candidates that tie on the whole rank key (score, `clientId` and
/// id) come out in the order they went in.
pub proof fn law_ranking_is_stable(scored: Seq<(u32, ClientSummary)>, k: (u32, Seq<char>, Seq<char>))
    ensures
        ranked(scored).filter(has_rank_key(k)) == scored.filter(has_rank_key(k)),
    decreases scored.len(),
{
    broadcast use vstd::seq::Seq::filter_distributes_over_add;
    reveal(Seq::filter);
    let pred = has_rank_key(k);
    if scored.len() == 0 {
        assert(ranked(scored) =~= scored);
    } else {
        let front = scored.drop_last();
        let x = scored.last();
        let rest = ranked(front);
        law_ranking_is_stable(front, k);
        law_ranked_is_ordered(front);
        lemma_insert_position(rest, x);
        let p = insert_position(rest, x);
        let head = rest.subrange(0, p);
        let tail = rest.subrange(p, rest.len() as int);
        assert(rest =~= head + tail);
        assert(rest.insert(p, x) =~= head + seq![x] + tail);
        assert(ranked(scored) == rest.insert(p, x));
        assert(seq![x].filter(pred) == if pred(x) { seq![x] } else { Seq::<(u32, ClientSummary)>::empty() }) by {
            assert(seq![x].drop_last() =~= Seq::<(u32, ClientSummary)>::empty());
            assert(Seq::<(u32, ClientSummary)>::empty().filter(pred) =~= Seq::<(u32, ClientSummary)>::empty());
        }
        assert(scored =~= front.push(x));
        assert(scored.drop_last() =~= front);
        if pred(x) {
            assert forall|j: int| 0 <= j < tail.len() implies !pred(#[trigger] tail[j]) by {
                let y = rest[p + j];
                assert(tail[j] == y);
                if p + j > p {
                    assert(!ranks_before(rest[p + j], rest[p]));
                    lemma_rank_total(x, rest[p], y);
                }
                assert(ranks_before(x, y));
                lemma_lt_irreflexive(opt_text(y.1.client_id));
                lemma_lt_irreflexive(opt_text(y.1.id));
            }
            lemma_filter_none(tail, pred);
            assert((head + seq![x] + tail).filter(pred) == (head + seq![x]).filter(pred) + tail.filter(pred));
            assert((head + seq![x]).filter(pred) == head.filter(pred) + seq![x].filter(pred));
            assert((head + tail).filter(pred) == head.filter(pred) + tail.filter(pred));
            assert(ranked(scored).filter(pred) =~= rest.filter(pred).push(x));
        } else {
            assert((head + seq![x] + tail).filter(pred) == (head + seq![x]).filter(pred) + tail.filter(pred));
            assert((head + seq![x]).filter(pred) == head.filter(pred) + seq![x].filter(pred));
            assert((head + tail).filter(pred) == head.filter(pred) + tail.filter(pred));
            assert(ranked(scored).filter(pred) =~= rest.filter(pred));
        }
    }
}

/// Ranking rearranges the scored candidates: it keeps every one of them and adds none.
pub proof fn law_ranking_keeps_every_match(scored: Seq<(u32, ClientSummary)>)
    ensures
        ranked(scored).to_multiset() =~= scored.to_multiset(),
    decreases scored.len(),
{
    if scored.len() > 0 {
        let front = scored.drop_last();
        let x = scored.last();
        let rest = ranked(front);
        law_ranking_keeps_every_match(front);
        law_ranked_is_ordered(front);
        lemma_insert_position(rest, x);
        let p = insert_position(rest, x);
        assert(ranked(scored) == rest.insert(p, x));
        vstd::seq_lib::to_multiset_insert(rest, p, x);
        vstd::seq_lib::to_multiset_build(front, x);
        assert(front.push(x) =~= scored);
        assert(rest.insert(p, x).to_multiset() =~= front.push(x).to_multiset());
    } else {
        assert(scored =~= Seq::<(u32, ClientSummary)>::empty());
        assert(ranked(scored) =~= scored);
    }
}

/// Every scored match is a candidate that matches the term, with its score.
proof fn lemma_scored_matches_match(candidates: Seq<ClientSummary>, term: Seq<char>)
    ensures
        forall|k: int| #![trigger scored_matches(candidates, term)[k]]
            0 <= k < scored_matches(candidates, term).len() ==> {
                let m = scored_matches(candidates, term)[k];
                &&& m.0 == search_score(m.1, term)
                &&& m.0 > 0
                &&& candidates.contains(m.1)
            },
    decreases candidates.len(),
{
    if candidates.len() > 0 {
        let front = candidates.drop_last();
        lemma_scored_matches_match(front, term);
        let rest = scored_matches(front, term);
        assert forall|k: int| #![trigger scored_matches(candidates, term)[k]]
            0 <= k < scored_matches(candidates, term).len() implies {
                let m = scored_matches(candidates, term)[k];
                &&& m.0 == search_score(m.1, term)
                &&& m.0 > 0
                &&& candidates.contains(m.1)
            } by {
            if k < rest.len() {
                let m = rest[k];
                assert(scored_matches(candidates, term)[k] == m);
                let j = choose|j: int| 0 <= j < front.len() && front[j] == m.1;
                assert(candidates[j] == m.1);
            } else {
                assert(candidates[candidates.len() - 1] == candidates.last());
            }
        }
    }
}

/// A search returns only candidates that match the term (each with a positive score), at most
/// the limit of them, and every match when fewer than the limit match.
pub proof fn law_search_returns_only_matches(candidates: Seq<ClientSummary>, term: Seq<char>, limit: Option<u32>)
    ensures
        ranked_results(candidates, term, limit).len() <= result_limit(limit),
        forall|i: int| #![trigger ranked_results(candidates, term, limit)[i]]
            0 <= i < ranked_results(candidates, term, limit).len() ==> candidates.contains(
                ranked_results(candidates, term, limit)[i],
            ) && search_score(ranked_results(candidates, term, limit)[i], normalized_term(term)) > 0,
        scored_matches(candidates, normalized_term(term)).len() <= result_limit(limit) ==> ranked_results(
            candidates,
            term,
            limit,
        ).len() == scored_matches(candidates, normalized_term(term)).len(),
{
    let t = normalized_term(term);
    let sm = scored_matches(candidates, t);
    let r = ranked(sm);
    law_ranking_keeps_every_match(sm);
    law_ranked_is_ordered(sm);
    lemma_scored_matches_match(candidates, t);
    let res = ranked_results(candidates, term, limit);
    assert forall|i: int| #![trigger ranked_results(candidates, term, limit)[i]]
        0 <= i < res.len() implies candidates.contains(res[i]) && search_score(res[i], t) > 0 by {
        let x = r[i];
        assert(res[i] == x.1);
        assert(r.contains(x));
        vstd::seq_lib::to_multiset_contains(r, x);
        vstd::seq_lib::to_multiset_contains(sm, x);
        let k = choose|k: int| 0 <= k < sm.len() && sm[k] == x;
        assert(sm[k] == x);
    }
}

/// The search results come in rank order, stated on the results themselves: scores never
/// increase; among results of equal score, `clientId`s (absent as empty) never decrease; and
/// among results of equal score and `clientId`, ids never decrease.
pub proof fn law_results_ordered_by_score_then_client_id_then_id(
    candidates: Seq<ClientSummary>,
    term: Seq<char>,
    limit: Option<u32>,
    i: int,
    j: int,
)
    requires
        0 <= i < j < ranked_results(candidates, term, limit).len(),
    ensures
        ({
            let res = ranked_results(candidates, term, limit);
            let t = normalized_term(term);
            let (a, b) = (res[i], res[j]);
            &&& search_score(a, t) >= search_score(b, t)
            &&& search_score(a, t) == search_score(b, t) ==> !seq_lt(opt_text(b.client_id), opt_text(a.client_id))
            &&& search_score(a, t) == search_score(b, t) && opt_text(b.client_id) == opt_text(a.client_id) ==> !seq_lt(
                opt_text(b.id),
                opt_text(a.id),
            )
        }),
{
    let t = normalized_term(term);
    let sm = scored_matches(candidates, t);
    let r = ranked(sm);
    law_ranking_keeps_every_match(sm);
    law_ranked_is_ordered(sm);
    lemma_scored_matches_match(candidates, t);
    let res = ranked_results(candidates, term, limit);
    assert(res[i] == r[i].1 && res[j] == r[j].1);
    assert forall|p: int| 0 <= p < r.len() implies (#[trigger] r[p]).0 == search_score(r[p].1, t) by {
        let x = r[p];
        assert(r.contains(x));
        vstd::seq_lib::to_multiset_contains(r, x);
        vstd::seq_lib::to_multiset_contains(sm, x);
        let k = choose|k: int| 0 <= k < sm.len() && sm[k] == x;
        assert(sm[k] == x);
    }
    assert(r[i].0 == search_score(r[i].1, t));
    assert(r[j].0 == search_score(r[j].1, t));
    assert(!ranks_before(r[j], r[i]));
}

/// Every candidate that scores above zero is scored as a match.
proof fn lemma_scored_matches_complete(candidates: Seq<ClientSummary>, term: Seq<char>)
    ensures
        forall|j: int| #![trigger candidates[j]]
            0 <= j < candidates.len() && search_score(candidates[j], term) > 0 ==> scored_matches(
                candidates,
                term,
            ).contains((search_score(candidates[j], term), candidates[j])),
        scored_matches(candidates, term).len() <= candidates.len(),
    decreases candidates.len(),
{
    if candidates.len() > 0 {
        let front = candidates.drop_last();
        lemma_scored_matches_complete(front, term);
        let rest = scored_matches(front, term);
        let m = scored_matches(candidates, term);
        assert forall|j: int| #![trigger candidates[j]]
            0 <= j < candidates.len() && search_score(candidates[j], term) > 0 implies m.contains(
                (search_score(candidates[j], term), candidates[j]),
            ) by {
            let x = (search_score(candidates[j], term), candidates[j]);
            if j < front.len() {
                assert(front[j] == candidates[j]);
                assert(rest.contains(x));
                let k = choose|k: int| 0 <= k < rest.len() && rest[k] == x;
                assert(m[k] == rest[k]);
            } else {
                assert(m[m.len() - 1] == x);
            }
        }
    }
}

/// How many results a search returns, and which candidates it cannot leave out: the number of
/// candidates that score above zero, capped at the limit (100 when none is given); when no
/// more candidates score above zero than the cap, every one of them is returned.
pub proof fn law_search_result_count(candidates: Seq<ClientSummary>, term: Seq<char>, limit: Option<u32>)
    ensures
        ({
            let n = scored_matches(candidates, normalized_term(term)).len();
            let cap: nat = match limit {
                Some(l) => l as nat,
                None => 100,
            };
            ranked_results(candidates, term, limit).len() == if n < cap { n } else { cap }
        }),
        forall|j: int| #![trigger candidates[j]]
            0 <= j < candidates.len() && search_score(candidates[j], normalized_term(term)) > 0 && scored_matches(
                candidates,
                normalized_term(term),
            ).len() <= match limit {
                Some(l) => l as nat,
                None => 100,
            } ==> ranked_results(candidates, term, limit).contains(candidates[j]),
{
    let t = normalized_term(term);
    let sm = scored_matches(candidates, t);
    let r = ranked(sm);
    law_ranking_keeps_every_match(sm);
    law_ranked_is_ordered(sm);
    lemma_scored_matches_complete(candidates, t);
    let res = ranked_results(candidates, term, limit);
    assert forall|j: int| #![trigger candidates[j]]
        0 <= j < candidates.len() && search_score(candidates[j], t) > 0 && sm.len() <= match limit {
            Some(l) => l as nat,
            None => 100,
        } implies res.contains(candidates[j]) by {
        let x = (search_score(candidates[j], t), candidates[j]);
        assert(sm.contains(x));
        vstd::seq_lib::to_multiset_contains(sm, x);
        vstd::seq_lib::to_multiset_contains(r, x);
        let k = choose|k: int| 0 <= k < r.len() && r[k] == x;
        assert(res[k] == r[k].1);
    }
}

/// Ranking orders its result: no returned entry ranks before an earlier one.
pub proof fn law_ranked_is_ordered(scored: Seq<(u32, ClientSummary)>)
    ensures
        rank_ordered(ranked(scored)),
        ranked(scored).len() == scored.len(),
    decreases scored.len(),
{
    if scored.len() > 0 {
        let rest = ranked(scored.drop_last());
        let x = scored.last();
        law_ranked_is_ordered(scored.drop_last());
        lemma_insert_position(rest, x);
        let p = insert_position(rest, x);
        let r = rest.insert(p, x);
        assert forall|i: int, j: int| 0 <= i < j < r.len() implies !ranks_before(#[trigger] r[j], #[trigger] r[i]) by {
            if j < p {
                assert(r[i] == rest[i] && r[j] == rest[j]);
            } else if j == p {
                assert(r[j] == x && r[i] == rest[i]);
            } else if i < p {
                assert(r[i] == rest[i] && r[j] == rest[j - 1]);
                if i < j - 1 {
                } else {
                    lemma_ranks_before_irreflexive(r[i]);
                }
            } else if i == p {
                assert(r[i] == x && r[j] == rest[j - 1]);
                if ranks_before(rest[j - 1], x) {
                    if j - 1 == p {
                        lemma_ranks_before_transitive(x, rest[p], x);
                        lemma_ranks_before_irreflexive(x);
                    } else {
                        lemma_ranks_before_transitive(rest[j - 1], x, rest[p]);
                    }
                }
            } else {
                assert(r[i] == rest[i - 1] && r[j] == rest[j - 1]);
            }
        }
    }
}

/// The query of a search, trimmed; a blank query is refused before anything else.
pub fn search_query_text(query: &str) -> (r: Result<String, ToolError>)
    ensures
        r matches Ok(q) ==> q@ == trimmed(query@) && q@.len() > 0,
        r is Err <==> trimmed(query@).len() == 0,
        r matches Err(e) ==> e.code@ == "clients.invalid_input"@ && e.message@ == "query is required."@
            && e.request_id@ == "req-client-search"@ && e.hint is None && (e.domain matches Some(d) && d@
            == "clients"@) && (e.details matches Some(JsonValue::Object(d)) && d@.len() == 1 && d@[0].0@
            == "hint"@ && string_text(d@[0].1) == Some("Provide a non-empty query and optional limit"@)),
{
    let q = trim(query);
    if q.as_str().is_empty() {
        let mut d: Vec<(String, JsonValue)> = Vec::new();
        d.push((String::from_str("hint"), jstr("Provide a non-empty query and optional limit")));
        proof {
            lemma_entries_get_at(d@, 0);
        }
        return Err(
            tool_error_with_context(
                "clients.invalid_input",
                "query is required.",
                "req-client-search",
                "clients",
                JsonValue::Object(d),
            ),
        );
    }
    Ok(q)
}

/// The name of the listing parameter a search sends its query in: `clientId` (an exact
/// lookup) when `exact` is set, otherwise `search`.
pub open spec fn query_param_name(exact: Option<bool>) -> Seq<char> {
    if exact == Some(true) {
        "clientId"@
    } else {
        "search"@
    }
}

/// The query parameters of the listing request of a search: the query (as `clientId` for an
/// exact search, else as `search`), and `max` when a limit is given. A limit outside 1..=100
/// is refused.
pub fn search_query_params(query: &str, exact: Option<bool>, limit: Option<u32>, request_id: &str) -> (r: Result<
    Vec<(String, String)>,
    ToolError,
>)
    ensures
        r is Err <==> (limit matches Some(l) && (l == 0 || l > 100)),
        r matches Ok(p) ==> p@.len() == (if limit is Some { 2int } else { 1int }) && p@[0].0@ == query_param_name(
            exact,
        ) && p@[0].1@ == query@ && (limit matches Some(l) ==> p@[1].0@ == "max"@ && p@[1].1@ == decimal(
            l as nat,
        )),
        r matches Err(e) ==> e.code@ == "clients.invalid_input"@ && e.message@
            == "limit must be between 1 and 100."@ && e.request_id@ == request_id@ && e.hint is None && (
        e.domain matches Some(d) && d@ == "clients"@) && (e.details matches Some(JsonValue::Object(d))
            && entry_views(d@) == seq![("limit"@, JsonValue::Number(JsonNumber::Int(limit->0 as i128)))]),
{
    proof {
        reveal_strlit("clientId");
        reveal_strlit("search");
    }
    let mut params: Vec<(String, String)> = Vec::new();
    if exact == Some(true) {
        params.push((String::from_str("clientId"), query.to_owned()));
    } else {
        params.push((String::from_str("search"), query.to_owned()));
    }
    match limit {
        Some(l) => {
            if l == 0 || l > 100 {
                let mut d: Vec<(String, JsonValue)> = Vec::new();
                d.push((String::from_str("limit"), JsonValue::Number(JsonNumber::Int(l as i128))));
                proof {
                    lemma_entries_get_at(d@, 0);
                }
                return Err(
                    tool_error_with_context(
                        "clients.invalid_input",
                        "limit must be between 1 and 100.",
                        request_id,
                        "clients",
                        JsonValue::Object(d),
                    ),
                );
            }
            params.push((String::from_str("max"), u32_to_decimal(l)));
        },
        None => {},
    }
    Ok(params)
}

/// The path of the direct lookup a search makes when the query is a UUID:
/// `/admin/realms/{realm}/clients/{uuid}` with the UUID in lowercase hyphenated form.
pub fn search_direct_lookup_path(realm: &str, query: &str) -> (r: Option<String>)
    ensures
        r is Some <==> uuid_parse_value(query@) is Some,
        r matches Some(p) ==> p@ == "/admin/realms/"@ + realm@ + "/clients/"@ + uuid_hyphenated(
            uuid_parse_value(query@)->0,
        ),
{
    match uuid_parse(query) {
        Some(v) => {
            let mut p = String::from_str("/admin/realms/");
            p.append(realm);
            p.append("/clients/");
            let id = uuid_to_string(v);
            p.append(id.as_str());
            Some(p)
        },
        None => None,
    }
}

/// Both clients have an id and the ids are equal.
pub open spec fn same_id(a: ClientSummary, b: ClientSummary) -> bool {
    match (a.id, b.id) {
        (Some(x), Some(y)) => x@ == y@,
        _ => false,
    }
}

/// Some listed client has the same id as `c`.
pub open spec fn id_listed(list: Seq<ClientSummary>, c: ClientSummary) -> bool {
    exists|i: int| 0 <= i < list.len() && same_id(#[trigger] list[i], c)
}

/// The candidates of a search: those found directly, then each listed client whose id is not
/// already among them (clients without an id are always kept).
pub open spec fn merged_candidates(direct: Seq<ClientSummary>, fetched: Seq<ClientSummary>) -> Seq<ClientSummary>
    decreases fetched.len(),
{
    if fetched.len() == 0 {
        direct
    } else {
        let m = merged_candidates(direct, fetched.drop_last());
        if id_listed(m, fetched.last()) {
            m
        } else {
            m.push(fetched.last())
        }
    }
}

/// Whether a client with the same id is listed.
fn has_listed_id(list: &Vec<ClientSummary>, c: &ClientSummary) -> (r: bool)
    ensures
        r == id_listed(list@, *c),
{
    let id = match &c.id {
        Some(id) => id,
        None => {
            return false;
        },
    };
    let n = list.len();
    for i in 0..n
        invariant
            n == list@.len(),
            c.id == Some(*id),
            forall|k: int| 0 <= k < i ==> !same_id(#[trigger] list@[k], *c),
    {
        match &list[i].id {
            Some(other) => {
                if str_eq(other.as_str(), id.as_str()) {
                    assert(same_id(list@[i as int], *c));
                    return true;
                }
            },
            None => {},
        }
    }
    false
}

/// Merges directly found clients with listed ones, dropping listed clients already present.
pub fn merge_search_candidates(direct: Vec<ClientSummary>, fetched: Vec<ClientSummary>) -> (r: Vec<ClientSummary>)
    ensures
        r@ == merged_candidates(direct@, fetched@),
{
    let mut out = direct;
    let ghost d = out@;
    let n = fetched.len();
    for i in 0..n
        invariant
            n == fetched@.len(),
            out@ == merged_candidates(d, fetched@.take(i as int)),
    {
        assert(fetched@.take(i + 1).drop_last() =~= fetched@.take(i as int));
        assert(fetched@.take(i + 1).last() == fetched@[i as int]);
        let c = fetched[i].copied();
        if !has_listed_id(&out, &c) {
            out.push(c);
        }
    }
    assert(fetched@.take(n as int) =~= fetched@);
    out
}

/// The client's id or `clientId` equals the query, ignoring ASCII case.
pub open spec fn exact_match(c: ClientSummary, query: Seq<char>) -> bool {
    ||| (c.id is Some && ascii_lower(c.id->0@) == ascii_lower(query))
    ||| (c.client_id is Some && ascii_lower(c.client_id->0@) == ascii_lower(query))
}

/// The clients that match the query exactly, in order.
pub open spec fn exact_matches(list: Seq<ClientSummary>, query: Seq<char>) -> Seq<ClientSummary>
    decreases list.len(),
{
    if list.len() == 0 {
        Seq::empty()
    } else {
        let rest = exact_matches(list.drop_last(), query);
        if exact_match(list.last(), query) {
            rest.push(list.last())
        } else {
            rest
        }
    }
}

/// Whether two strings are equal ignoring ASCII case.
fn eq_ignore_ascii_case(a: &str, b: &str) -> (r: bool)
    ensures
        r == (ascii_lower(a@) == ascii_lower(b@)),
{
    let x = ascii_lowercase(a);
    let y = ascii_lowercase(b);
    str_eq(x.as_str(), y.as_str())
}

/// For a UUID query, keeps only the clients whose id or `clientId` is the query (ignoring
/// ASCII case); other queries keep every client.
pub fn keep_exact_uuid_matches(clients: Vec<ClientSummary>, query: &str) -> (r: Vec<ClientSummary>)
    ensures
        uuid_parse_value(query@) is Some ==> r@ == exact_matches(clients@, query@),
        uuid_parse_value(query@) is None ==> r@ == clients@,
{
    if uuid_parse(query).is_none() {
        return clients;
    }
    let normalized = ascii_lowercase(query);
    proof {
        assert(ascii_lower(normalized@) =~= ascii_lower(query@));
    }
    let mut out: Vec<ClientSummary> = Vec::new();
    let n = clients.len();
    for i in 0..n
        invariant
            n == clients@.len(),
            ascii_lower(normalized@) == ascii_lower(query@),
            out@ == exact_matches(clients@.take(i as int), query@),
    {
        assert(clients@.take(i + 1).drop_last() =~= clients@.take(i as int));
        assert(clients@.take(i + 1).last() == clients@[i as int]);
        let c = &clients[i];
        let by_id = match &c.id {
            Some(id) => eq_ignore_ascii_case(id.as_str(), normalized.as_str()),
            None => false,
        };
        let by_client_id = match &c.client_id {
            Some(cid) => eq_ignore_ascii_case(cid.as_str(), normalized.as_str()),
            None => false,
        };
        if by_id || by_client_id {
            out.push(c.copied());
        }
    }
    assert(clients@.take(n as int) =~= clients@);
    out
}

/// The clients of `list`, in order, whose `clientId` is exactly `query`.
pub open spec fn client_id_matches(list: Seq<ClientSummary>, query: Seq<char>) -> Seq<ClientSummary>
    decreases list.len(),
{
    if list.len() == 0 {
        Seq::empty()
    } else {
        let rest = client_id_matches(list.drop_last(), query);
        if list.last().client_id matches Some(c) && c@ == query {
            rest.push(list.last())
        } else {
            rest
        }
    }
}

/// For an exact search, keeps only the clients whose `clientId` is exactly the query; other
/// searches keep every client.
pub fn keep_exact_client_id_matches(clients: Vec<ClientSummary>, query: &str, exact: Option<bool>) -> (r: Vec<
    ClientSummary,
>)
    ensures
        exact == Some(true) ==> r@ == client_id_matches(clients@, query@),
        exact != Some(true) ==> r@ == clients@,
{
    if exact != Some(true) {
        return clients;
    }
    let mut out: Vec<ClientSummary> = Vec::new();
    let n = clients.len();
    for i in 0..n
        invariant
            n == clients@.len(),
            out@ == client_id_matches(clients@.take(i as int), query@),
    {
        assert(clients@.take(i + 1).drop_last() =~= clients@.take(i as int));
        assert(clients@.take(i + 1).last() == clients@[i as int]);
        let c = &clients[i];
        let keep = match &c.client_id {
            Some(cid) => str_eq(cid.as_str(), query),
            None => false,
        };
        if keep {
            out.push(c.copied());
        }
    }
    assert(clients@.take(n as int) =~= clients@);
    out
}

/// A failed direct lookup of a UUID query: a 404 answer only means no client has that id and
/// the search goes on; any other failure ends it.
pub fn direct_lookup_failure(err: GatewayFailure) -> (r: Result<(), McpError>)
    ensures
        r is Ok <==> (err matches GatewayFailure::Upstream { status, .. } && status == 404),
        r matches Err(e) ==> reports_gateway_failure(err, e),
{
    match &err {
        GatewayFailure::Upstream { status, .. } => {
            if *status == 404 {
                return Ok(());
            }
        },
        GatewayFailure::Unavailable => {},
    }
    Err(gateway_failure_error(err))
}

} // verus!
