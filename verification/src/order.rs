//! Lexicographic order of strings (the order of `str`'s `Ord`, by code point) and sorted,
//! duplicate-free string lists.
use vstd::prelude::*;
use crate::auth::has_text;
use crate::text::{chars_of, string_views};

verus! {

/// Strict lexicographic order by code point.
pub open spec fn seq_lt(a: Seq<char>, b: Seq<char>) -> bool
    decreases a.len(),
{
    if a.len() == 0 {
        b.len() > 0
    } else if b.len() == 0 {
        false
    } else if a[0] < b[0] {
        true
    } else if a[0] == b[0] {
        seq_lt(a.drop_first(), b.drop_first())
    } else {
        false
    }
}

/// The order is irreflexive.
pub proof fn lemma_lt_irreflexive(a: Seq<char>)
    ensures
        !seq_lt(a, a),
    decreases a.len(),
{
    if a.len() > 0 {
        lemma_lt_irreflexive(a.drop_first());
    }
}

/// Any two sequences are equal or ordered one way.
pub proof fn lemma_lt_trichotomy(a: Seq<char>, b: Seq<char>)
    ensures
        a == b || seq_lt(a, b) || seq_lt(b, a),
    decreases a.len(),
{
    if a.len() > 0 && b.len() > 0 && a[0] == b[0] {
        lemma_lt_trichotomy(a.drop_first(), b.drop_first());
        if a.drop_first() == b.drop_first() {
            assert(a =~= seq![a[0]] + a.drop_first());
            assert(b =~= seq![b[0]] + b.drop_first());
        }
    } else if a.len() > 0 && b.len() > 0 {

    }
}

/// The order is asymmetric.
pub proof fn lemma_lt_asymmetric(a: Seq<char>, b: Seq<char>)
    ensures
        !(seq_lt(a, b) && seq_lt(b, a)),
    decreases a.len(),
{
    if a.len() > 0 && b.len() > 0 && a[0] == b[0] {
        lemma_lt_asymmetric(a.drop_first(), b.drop_first());
    }
}

/// The order is transitive.
pub proof fn lemma_lt_transitive(a: Seq<char>, b: Seq<char>, c: Seq<char>)
    requires
        seq_lt(a, b),
        seq_lt(b, c),
    ensures
        seq_lt(a, c),
    decreases a.len(),
{
    if a.len() > 0 && b.len() > 0 && c.len() > 0 && a[0] == b[0] && b[0] == c[0] {
        lemma_lt_transitive(a.drop_first(), b.drop_first(), c.drop_first());
    }
}

/// Compares two strings lexicographically by code point.
pub fn str_lt(a: &str, b: &str) -> (r: bool)
    ensures
        r == seq_lt(a@, b@),
{
    let x = chars_of(a);
    let y = chars_of(b);
    let mut i: usize = 0;
    assert(a@.skip(0) =~= a@);
    assert(b@.skip(0) =~= b@);
    loop
        invariant
            x@ == a@,
            y@ == b@,
            i <= x@.len(),
            i <= y@.len(),
            seq_lt(a@, b@) == seq_lt(a@.skip(i as int), b@.skip(i as int)),
        decreases x@.len() - i,
    {
        let ghost sa = a@.skip(i as int);
        let ghost sb = b@.skip(i as int);
        if i == x.len() {
            return i < y.len();
        }
        if i == y.len() {
            return false;
        }
        let cx = x[i];
        let cy = y[i];
        if cx < cy {
            return true;
        }
        if cx != cy {
            return false;
        }
        assert(sa.drop_first() =~= a@.skip(i + 1));
        assert(sb.drop_first() =~= b@.skip(i + 1));
        i = i + 1;
    }
}

/// Strictly increasing texts (hence no duplicates).
pub open spec fn sorted_unique(v: Seq<String>) -> bool {
    forall|i: int, j: int| 0 <= i < j < v.len() ==> seq_lt(v[i]@, v[j]@)
}

/// The same texts occur in both lists.
pub open spec fn same_texts(a: Seq<String>, b: Seq<String>) -> bool {
    forall|s: Seq<char>| has_text(a, s) <==> has_text(b, s)
}

/// Sorts strings and drops repeated texts.
pub fn sort_dedup(values: Vec<String>) -> (r: Vec<String>)
    ensures
        sorted_unique(r@),
        same_texts(r@, values@),
{
    let mut out: Vec<String> = Vec::new();
    let n = values.len();
    for i in 0..n
        invariant
            n == values@.len(),
            sorted_unique(out@),
            forall|s: Seq<char>| has_text(out@, s) <==> has_text(values@.take(i as int), s),
    {
        let x = &values[i];
        let m = out.len();
        let mut p: usize = 0;
        while p < m && str_lt(out[p].as_str(), x.as_str())
            invariant
                m == out@.len(),
                p <= m,
                forall|k: int| 0 <= k < p ==> seq_lt(out@[k]@, x@),
            decreases m - p,
        {
            p = p + 1;
        }
        let ghost old_out = out@;
        if p < m && out[p] == *x {
            assert forall|s: Seq<char>| has_text(out@, s) <==> has_text(values@.take(i + 1), s) by {
                if has_text(values@.take(i + 1), s) {
                    let k = choose|k: int| 0 <= k < i + 1 && (#[trigger] values@.take(i + 1)[k])@ == s;
                    if k < i {
                        assert(values@.take(i as int)[k] == values@.take(i + 1)[k]);
                    }
                }
                if has_text(out@, s) {
                    let k = choose|k: int| 0 <= k < out@.len() && (#[trigger] out@[k])@ == s;
                    assert(has_text(values@.take(i as int), s));
                    let k2 = choose|k2: int| 0 <= k2 < i && (#[trigger] values@.take(i as int)[k2])@ == s;
                    assert(values@.take(i + 1)[k2] == values@.take(i as int)[k2]);
                }
            }
        } else {
            if p < m {
                proof {
                    lemma_lt_trichotomy(out@[p as int]@, x@);
                }
            }
            assert(forall|s: Seq<char>| has_text(old_out, s) <==> has_text(values@.take(i as int), s));
            let y = x.clone();
            out.insert(p, y);
            assert(out@ =~= old_out.insert(p as int, y));
            assert(forall|k: int| 0 <= k < p ==> out@[k] == old_out[k]);
            assert(forall|k: int| p < k < out@.len() ==> out@[k] == old_out[k - 1]);
            assert(out@[p as int] == y);
            assert forall|a: int, b: int| 0 <= a < b < out@.len() implies seq_lt(out@[a]@, out@[b]@) by {
                if a < p && b == p {
                } else if a < p && b > p {
                    assert(out@[b] == old_out[b - 1]);
                    assert(out@[a] == old_out[a]);
                } else if a == p {
                    assert(out@[b] == old_out[b - 1]);
                    if b - 1 > p {
                        lemma_lt_transitive(x@, old_out[p as int]@, old_out[b - 1]@);
                    }
                } else if a < p && b < p {
                    assert(out@[a] == old_out[a]);
                    assert(out@[b] == old_out[b]);
                } else {
                    assert(out@[a] == old_out[a - 1]);
                    assert(out@[b] == old_out[b - 1]);
                }
            }
            assert forall|s: Seq<char>| has_text(out@, s) <==> has_text(values@.take(i + 1), s) by {
                if has_text(values@.take(i + 1), s) {
                    let k = choose|k: int| 0 <= k < i + 1 && (#[trigger] values@.take(i + 1)[k])@ == s;
                    if k < i {
                        assert(values@.take(i as int)[k] == values@.take(i + 1)[k]);
                        assert(has_text(values@.take(i as int), s));
                        assert(has_text(old_out, s));
                        let k3 = choose|k3: int| 0 <= k3 < old_out.len() && (#[trigger] old_out[k3])@ == s;
                        if k3 < p {
                            assert(out@[k3] == old_out[k3]);
                        } else {
                            assert(out@[k3 + 1] == old_out[k3]);
                        }
                    } else {
                        assert(out@[p as int] == *x);
                    }
                }
                if has_text(out@, s) {
                    let k = choose|k: int| 0 <= k < out@.len() && (#[trigger] out@[k])@ == s;
                    if k == p {
                        assert(values@.take(i + 1)[i as int] == values@[i as int]);
                    } else {
                        let k4 = if k < p { k } else { k - 1 };
                        assert(old_out[k4] == out@[k]);
                        assert(has_text(old_out, s));
                        assert(has_text(values@.take(i as int), s));
                        let k2 = choose|k2: int| 0 <= k2 < i && (#[trigger] values@.take(i as int)[k2])@ == s;
                        assert(values@.take(i + 1)[k2] == values@.take(i as int)[k2]);
                    }
                }
            }
        }
    }
    assert(values@.take(n as int) =~= values@);
    out
}


/// Strictly increasing texts.
pub open spec fn increasing(a: Seq<Seq<char>>) -> bool {
    forall|i: int, j: int| 0 <= i < j < a.len() ==> seq_lt(a[i], a[j])
}

/// The texts of a sorted, duplicate-free list are increasing, and a text occurs in the list
/// exactly when it occurs among its texts.
pub proof fn lemma_texts_of_sorted(v: Seq<String>)
    ensures
        sorted_unique(v) ==> increasing(string_views(v)),
        forall|s: Seq<char>| has_text(v, s) <==> string_views(v).contains(s),
{
    if sorted_unique(v) {
        assert forall|i: int, j: int| 0 <= i < j < string_views(v).len() implies seq_lt(
            string_views(v)[i],
            string_views(v)[j],
        ) by {
            assert(string_views(v)[i] == v[i]@ && string_views(v)[j] == v[j]@);
        }
    }
    assert forall|s: Seq<char>| has_text(v, s) implies string_views(v).contains(s) by {
        let i = choose|i: int| 0 <= i < v.len() && (#[trigger] v[i])@ == s;
        assert(string_views(v)[i] == s);
    }
    assert forall|s: Seq<char>| string_views(v).contains(s) implies has_text(v, s) by {
        let i = choose|i: int| 0 <= i < string_views(v).len() && string_views(v)[i] == s;
        assert(v[i]@ == s);
    }
}

/// Filtering an increasing sequence keeps it increasing and keeps exactly the elements that
/// satisfy the predicate.
pub proof fn lemma_filter_increasing(a: Seq<Seq<char>>, pred: spec_fn(Seq<char>) -> bool)
    requires
        increasing(a),
    ensures
        increasing(a.filter(pred)),
        forall|s: Seq<char>| a.filter(pred).contains(s) <==> (a.contains(s) && pred(s)),
    decreases a.len(),
{
    reveal(Seq::filter);
    if a.len() > 0 {
        let init = a.drop_last();
        assert(increasing(init));
        lemma_filter_increasing(init, pred);
        let sub = init.filter(pred);
        assert forall|s: Seq<char>| a.contains(s) <==> (init.contains(s) || s == a.last()) by {
            if a.contains(s) {
                let i = choose|i: int| 0 <= i < a.len() && a[i] == s;
                if i < a.len() - 1 {
                    assert(init[i] == s);
                }
            }
            if init.contains(s) {
                let i = choose|i: int| 0 <= i < init.len() && init[i] == s;
                assert(a[i] == s);
            }
            if s == a.last() {
                assert(a[a.len() - 1] == s);
            }
        }
        if pred(a.last()) {
            assert forall|i: int, j: int| 0 <= i < j < sub.push(a.last()).len() implies seq_lt(
                sub.push(a.last())[i],
                sub.push(a.last())[j],
            ) by {
                let p = sub.push(a.last());
                if j == sub.len() {
                    assert(p[i] == sub[i]);
                    assert(p[j] == a.last());
                    assert(sub.contains(sub[i]));
                    assert(init.contains(sub[i]));
                    let k = choose|k: int| 0 <= k < init.len() && init[k] == sub[i];
                    assert(a[k] == sub[i] && a[a.len() - 1] == a.last());
                } else {
                    assert(p[i] == sub[i] && p[j] == sub[j]);
                }
            }
            assert forall|s: Seq<char>| sub.push(a.last()).contains(s) <==> (sub.contains(s) || s == a.last()) by {
                if sub.push(a.last()).contains(s) {
                    let i = choose|i: int| 0 <= i < sub.push(a.last()).len() && sub.push(a.last())[i] == s;
                    if i < sub.len() {
                        assert(sub[i] == s);
                    }
                }
                if sub.contains(s) {
                    let i = choose|i: int| 0 <= i < sub.len() && sub[i] == s;
                    assert(sub.push(a.last())[i] == s);
                }
                if s == a.last() {
                    assert(sub.push(a.last())[sub.len() as int] == s);
                }
            }
        }
    }
}

/// Two increasing sequences with the same elements are equal.
pub proof fn lemma_increasing_determined(a: Seq<Seq<char>>, b: Seq<Seq<char>>)
    requires
        increasing(a),
        increasing(b),
        forall|s: Seq<char>| a.contains(s) <==> b.contains(s),
    ensures
        a == b,
    decreases a.len(),
{
    if a.len() == 0 {
        if b.len() > 0 {
            assert(b.contains(b[0]));
        }
        assert(a =~= b);
    } else {
        assert(a.contains(a[0]));
        assert(b.len() > 0);
        assert(b.contains(b[0]));
        let j = choose|j: int| 0 <= j < b.len() && b[j] == a[0];
        let i = choose|i: int| 0 <= i < a.len() && a[i] == b[0];
        if j > 0 && i > 0 {
            lemma_lt_asymmetric(a[0], b[0]);
        } else if j > 0 {
            lemma_lt_irreflexive(b[0]);
        } else if i > 0 {
            lemma_lt_irreflexive(a[0]);
        }
        assert(a[0] == b[0]);
        let ra = a.drop_first();
        let rb = b.drop_first();
        assert forall|s: Seq<char>| ra.contains(s) <==> rb.contains(s) by {
            if ra.contains(s) {
                let k = choose|k: int| 0 <= k < ra.len() && ra[k] == s;
                assert(a[k + 1] == s);
                assert(seq_lt(a[0], s));
                lemma_lt_irreflexive(s);
                assert(a.contains(s));
                assert(b.contains(s));
                let m = choose|m: int| 0 <= m < b.len() && b[m] == s;
                assert(m != 0);
                assert(rb[m - 1] == s);
            }
            if rb.contains(s) {
                let k = choose|k: int| 0 <= k < rb.len() && rb[k] == s;
                assert(b[k + 1] == s);
                assert(seq_lt(b[0], s));
                lemma_lt_irreflexive(s);
                assert(b.contains(s));
                assert(a.contains(s));
                let m = choose|m: int| 0 <= m < a.len() && a[m] == s;
                assert(m != 0);
                assert(ra[m - 1] == s);
            }
        }
        lemma_increasing_determined(ra, rb);
        assert(a =~= seq![a[0]] + ra);
        assert(b =~= seq![b[0]] + rb);
    }
}

/// A sorted, duplicate-free list is determined by its texts: two such lists with the same
/// texts have the same texts in the same order.
pub proof fn law_sorted_texts_determined(a: Seq<String>, b: Seq<String>)
    requires
        sorted_unique(a),
        sorted_unique(b),
        same_texts(a, b),
    ensures
        string_views(a) == string_views(b),
{
    lemma_texts_of_sorted(a);
    lemma_texts_of_sorted(b);
    assert forall|s: Seq<char>| string_views(a).contains(s) <==> string_views(b).contains(s) by {
        assert(has_text(a, s) <==> has_text(b, s));
    }
    lemma_increasing_determined(string_views(a), string_views(b));
}

} // verus!
