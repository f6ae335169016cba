//! Lexicographic order on strings, and a verified sort.
//!
//! Columns are sorted by their *string* representation before they are
//! classified; which value lands at index 0 decides whether a column counts
//! as numeric. The order here compares Unicode scalar values one by one,
//! which on valid strings coincides with the byte-wise order `Vec::sort`
//! uses.

use vstd::prelude::*;
use vstd::relations::{sorted_by, total_ordering};
use vstd::seq_lib::group_to_multiset_ensures;
use vstd::seq_lib::lemma_sorted_unique;

verus! {

/// The views of a sequence of strings, as sequences of characters.
pub open spec fn views(s: Seq<String>) -> Seq<Seq<char>> {
    s.map_values(|x: String| x@)
}

/// Lexicographic "less than or equal" on character sequences, by Unicode
/// scalar value.
pub open spec fn lex_le(a: Seq<char>, b: Seq<char>) -> bool
    decreases a.len(),
{
    if a.len() == 0 {
        true
    } else if b.len() == 0 {
        false
    } else if (a[0] as int) < (b[0] as int) {
        true
    } else if (b[0] as int) < (a[0] as int) {
        false
    } else {
        lex_le(a.drop_first(), b.drop_first())
    }
}

/// `lex_le` as a binary relation value, for `sort_by` and the ordering
/// lemmas.
pub open spec fn lex_leq() -> spec_fn(Seq<char>, Seq<char>) -> bool {
    |a: Seq<char>, b: Seq<char>| lex_le(a, b)
}

pub proof fn lemma_lex_le_reflexive(a: Seq<char>)
    ensures
        lex_le(a, a),
    decreases a.len(),
{
    if a.len() > 0 {
        lemma_lex_le_reflexive(a.drop_first());
    }
}

pub proof fn lemma_lex_le_antisymmetric(a: Seq<char>, b: Seq<char>)
    requires
        lex_le(a, b),
        lex_le(b, a),
    ensures
        a == b,
    decreases a.len(),
{
    if a.len() == 0 {
        assert(b.len() == 0);
        assert(a =~= b);
    } else {
        assert((a[0] as int) == (b[0] as int));
        assert(a[0] == b[0]);
        lemma_lex_le_antisymmetric(a.drop_first(), b.drop_first());
        assert(a =~= seq![a[0]] + a.drop_first());
        assert(b =~= seq![b[0]] + b.drop_first());
        assert(a =~= b);
    }
}

pub proof fn lemma_lex_le_transitive(a: Seq<char>, b: Seq<char>, c: Seq<char>)
    requires
        lex_le(a, b),
        lex_le(b, c),
    ensures
        lex_le(a, c),
    decreases a.len(),
{
    if a.len() == 0 {
    } else {
        assert(b.len() > 0);
        assert(c.len() > 0);
        if (a[0] as int) == (b[0] as int) && (b[0] as int) == (c[0] as int) {
            lemma_lex_le_transitive(a.drop_first(), b.drop_first(), c.drop_first());
        }
    }
}

pub proof fn lemma_lex_le_connected(a: Seq<char>, b: Seq<char>)
    ensures
        lex_le(a, b) || lex_le(b, a),
    decreases a.len(),
{
    if a.len() > 0 && b.len() > 0 {
        lemma_lex_le_connected(a.drop_first(), b.drop_first());
    }
}

/// `lex_le` is a total order, as `sort_by` and sortedness-uniqueness require.
pub proof fn lemma_lex_total_ordering()
    ensures
        total_ordering(lex_leq()),
{
    let r = lex_leq();
    assert forall|a: Seq<char>| #[trigger] r(a, a) by {
        lemma_lex_le_reflexive(a);
    }
    assert forall|a: Seq<char>, b: Seq<char>| #[trigger] r(a, b) && #[trigger] r(b, a)
        implies a == b by {
        lemma_lex_le_antisymmetric(a, b);
    }
    assert forall|a: Seq<char>, b: Seq<char>, c: Seq<char>|
        #[trigger] r(a, b) && #[trigger] r(b, c) implies r(a, c) by {
        lemma_lex_le_transitive(a, b, c);
    }
    assert forall|a: Seq<char>, b: Seq<char>| !(#[trigger] r(a, b)) implies #[trigger] r(b, a) by {
        lemma_lex_le_connected(a, b);
    }
}

proof fn lemma_lex_skip_step(a: Seq<char>, b: Seq<char>, i: int)
    requires
        0 <= i < a.len(),
        0 <= i < b.len(),
        a[i] == b[i],
    ensures
        lex_le(a.skip(i), b.skip(i)) == lex_le(a.skip(i + 1), b.skip(i + 1)),
{
    let sa = a.skip(i);
    let sb = b.skip(i);
    assert(sa.len() > 0);
    assert(sb.len() > 0);
    assert(sa[0] == a[i]);
    assert(sb[0] == b[i]);
    assert(sa.drop_first() =~= a.skip(i + 1));
    assert(sb.drop_first() =~= b.skip(i + 1));
}

/// Decide `lex_le` on two string slices, character by character.
pub fn str_le(a: &str, b: &str) -> (r: bool)
    ensures
        r == lex_le(a@, b@),
{
    let alen = a.unicode_len();
    let blen = b.unicode_len();
    let mut i: usize = 0;
    proof {
        assert(a@.skip(0) =~= a@);
        assert(b@.skip(0) =~= b@);
    }
    loop
        invariant
            alen == a@.len(),
            blen == b@.len(),
            i <= alen,
            i <= blen,
            lex_le(a@, b@) == lex_le(a@.skip(i as int), b@.skip(i as int)),
        decreases alen - i,
    {
        if i == alen {
            proof {
                assert(a@.skip(i as int).len() == 0);
            }
            return true;
        }
        if i == blen {
            proof {
                assert(b@.skip(i as int).len() == 0);
                assert(a@.skip(i as int).len() > 0);
            }
            return false;
        }
        let ca = a.get_char(i);
        let cb = b.get_char(i);
        if ca != cb {
            proof {
                assert(a@.skip(i as int)[0] == a@[i as int]);
                assert(b@.skip(i as int)[0] == b@[i as int]);
            }
            return (ca as u32) < (cb as u32);
        }
        proof {
            lemma_lex_skip_step(a@, b@, i as int);
        }
        i = i + 1;
    }
}

proof fn lemma_views_insert(s: Seq<String>, j: int, x: String)
    requires
        0 <= j <= s.len(),
    ensures
        views(s.insert(j, x)) =~= views(s).insert(j, x@),
{
}

proof fn lemma_views_push(s: Seq<String>, x: String)
    ensures
        views(s.push(x)) =~= views(s).push(x@),
{
}

proof fn lemma_insert_to_multiset<A>(s: Seq<A>, j: int, x: A)
    requires
        0 <= j <= s.len(),
    ensures
        s.insert(j, x).to_multiset() =~= s.to_multiset().insert(x),
{
    broadcast use group_to_multiset_ensures;

    let t = s.insert(j, x);
    assert(t.remove(j) =~= s);
    assert(t[j] == x);
    assert(s.to_multiset() =~= t.to_multiset().remove(x));
    assert(t.to_multiset().contains(x));
    assert forall|y: A| true implies #[trigger] t.to_multiset().count(y) == s.to_multiset().insert(
        x,
    ).count(y) by {
        if y == x {
            assert(t.to_multiset().count(x) >= 1);
        }
    }
    assert(t.to_multiset() =~= s.to_multiset().insert(x));
}

/// Sort strings into ascending lexicographic order.
///
/// The result is exactly `sort_by` of the input views under `lex_le`: the
/// unique permutation of the input that is sorted by that order.
pub fn sort_strings(v: &Vec<String>) -> (out: Vec<String>)
    ensures
        views(out@) == views(v@).sort_by(lex_leq()),
        out@.len() == v@.len(),
{
    proof {
        lemma_lex_total_ordering();
    }
    let mut out: Vec<String> = Vec::new();
    let mut i: usize = 0;
    proof {
        assert(views(out@) =~= views(v@.subrange(0, 0)));
    }
    while i < v.len()
        invariant
            i <= v@.len(),
            sorted_by(views(out@), lex_leq()),
            views(out@).to_multiset() == views(v@.subrange(0, i as int)).to_multiset(),
            out@.len() == i,
        decreases v@.len() - i,
    {
        let x: String = v[i].clone();
        let mut j: usize = 0;
        loop
            invariant
                j <= out@.len(),
                forall|k: int| 0 <= k < j ==> lex_le(views(out@)[k], x@),
            ensures
                j <= out@.len(),
                forall|k: int| 0 <= k < j ==> lex_le(views(out@)[k], x@),
                j < out@.len() ==> !lex_le(views(out@)[j as int], x@),
            decreases out@.len() - j,
        {
            if j == out.len() {
                break ;
            }
            if !str_le(&out[j], x.as_str()) {
                break ;
            }
            j = j + 1;
        }
        proof {
            lemma_lex_total_ordering();
            let vs = views(out@);
            assert forall|k: int| j <= k < vs.len() implies lex_le(x@, vs[k]) by {
                lemma_lex_le_connected(vs[j as int], x@);
                assert(lex_le(x@, vs[j as int]));
                if k > j {
                    assert(lex_leq()(vs[j as int], vs[k]));
                    lemma_lex_le_transitive(x@, vs[j as int], vs[k]);
                }
            }
            lemma_views_insert(out@, j as int, x);
            lemma_insert_to_multiset(views(out@), j as int, x@);
            assert(v@.subrange(0, i + 1) =~= v@.subrange(0, i as int).push(v@[i as int]));
            lemma_views_push(v@.subrange(0, i as int), v@[i as int]);
            broadcast use group_to_multiset_ensures;

            let ins = vs.insert(j as int, x@);
            assert forall|p: int, q: int| 0 <= p < q < ins.len() implies #[trigger] lex_leq()(
                ins[p],
                ins[q],
            ) by {
                if p < j {
                    assert(ins[p] == vs[p]);
                } else if p == j {
                    assert(ins[p] == x@);
                } else {
                    assert(ins[p] == vs[p - 1]);
                }
                if q < j {
                    assert(ins[q] == vs[q]);
                } else if q == j {
                    assert(ins[q] == x@);
                } else {
                    assert(ins[q] == vs[q - 1]);
                }
                if q < j {
                    assert(lex_leq()(vs[p], vs[q]));
                } else if p < j && q == j {
                    assert(lex_le(vs[p], x@));
                } else if p < j && q > j {
                    if q - 1 == p {
                        lemma_lex_le_reflexive(vs[p]);
                        assert(lex_le(vs[p], x@));
                        lemma_lex_le_connected(x@, vs[q - 1]);
                    } else {
                        assert(lex_leq()(vs[p], vs[q - 1]));
                    }
                } else if p == j {
                    assert(lex_le(x@, vs[q - 1]));
                } else {
                    assert(lex_leq()(vs[p - 1], vs[q - 1]));
                }
            }
        }
        out.insert(j, x);
        i = i + 1;
    }
    proof {
        lemma_lex_total_ordering();
        assert(v@.subrange(0, v@.len() as int) =~= v@);
        views(v@).lemma_sort_by_ensures(lex_leq());
        lemma_sorted_unique(views(out@), views(v@).sort_by(lex_leq()), lex_leq());
        assert(views(out@) =~= views(v@).sort_by(lex_leq()));
    }
    out
}

} // verus!
