//! Lexicographic order on strings, a verified insertion sort, and adjacent
//! deduplication — what `uniqueOnly` field rules are defined by.

use vstd::prelude::*;
use vstd::relations::{total_ordering, sorted_by};
use vstd::seq_lib::lemma_sorted_unique;
use vstd::string::StrSliceExecFns;

verus! {

broadcast use vstd::seq_lib::group_to_multiset_ensures;

/// Lexicographic order by Unicode scalar value; a prefix sorts before its
/// extensions.
pub open spec fn lex_leq(a: Seq<char>, b: Seq<char>) -> bool
    decreases a.len(),
{
    if a.len() == 0 {
        true
    } else if b.len() == 0 {
        false
    } else if (a[0] as u32) < (b[0] as u32) {
        true
    } else if (a[0] as u32) > (b[0] as u32) {
        false
    } else {
        lex_leq(a.drop_first(), b.drop_first())
    }
}

/// The order as a closure, the shape vstd's sorting lemmas expect.
pub open spec fn lex_leq_f() -> spec_fn(Seq<char>, Seq<char>) -> bool {
    |a: Seq<char>, b: Seq<char>| lex_leq(a, b)
}

proof fn lemma_lex_refl(a: Seq<char>)
    ensures
        lex_leq(a, a),
    decreases a.len(),
{
    if a.len() > 0 {
        lemma_lex_refl(a.drop_first());
    }
}

proof fn lemma_lex_conn(a: Seq<char>, b: Seq<char>)
    ensures
        lex_leq(a, b) || lex_leq(b, a),
    decreases a.len(),
{
    if a.len() > 0 && b.len() > 0 && (a[0] as u32) == (b[0] as u32) {
        lemma_lex_conn(a.drop_first(), b.drop_first());
    }
}

proof fn lemma_lex_antisym(a: Seq<char>, b: Seq<char>)
    requires
        lex_leq(a, b),
        lex_leq(b, a),
    ensures
        a == b,
    decreases a.len(),
{
    if a.len() == 0 {
        assert(b.len() == 0);
        assert(a =~= b);
    } else {
        assert(b.len() > 0);
        lemma_lex_antisym(a.drop_first(), b.drop_first());
        assert(a =~= b) by {
            assert((a[0] as u32) == (b[0] as u32));
            vstd::utf8::char_u32_cast(a[0], a[0] as u32);
            vstd::utf8::char_u32_cast(b[0], b[0] as u32);
            assert(a[0] == b[0]);
            assert(a.drop_first() =~= b.drop_first());
            assert(a.drop_first().len() == a.len() - 1);
            assert(b.drop_first().len() == b.len() - 1);
            assert(a.len() == b.len());
            assert forall|i: int| 0 <= i < a.len() implies a[i] == b[i] by {
                if i > 0 {
                    assert(a[i] == a.drop_first()[i - 1]);
                    assert(b[i] == b.drop_first()[i - 1]);
                }
            }
        }
    }
}

proof fn lemma_lex_trans(a: Seq<char>, b: Seq<char>, c: Seq<char>)
    requires
        lex_leq(a, b),
        lex_leq(b, c),
    ensures
        lex_leq(a, c),
    decreases a.len(),
{
    if a.len() > 0 && c.len() > 0 {
        assert(b.len() > 0);
        if (a[0] as u32) == (b[0] as u32) && (b[0] as u32) == (c[0] as u32) {
            lemma_lex_trans(a.drop_first(), b.drop_first(), c.drop_first());
        }
    }
}

/// Law: the lexicographic order is a total order, so sorting by it is
/// well defined and a sorted, deduplicated value list is unique.
pub proof fn lemma_lex_total()
    ensures
        total_ordering(lex_leq_f()),
{
    let f = lex_leq_f();
    assert forall|a: Seq<char>| #[trigger] f(a, a) by {
        lemma_lex_refl(a);
    }
    assert forall|a: Seq<char>, b: Seq<char>| #[trigger] f(a, b) && #[trigger] f(b, a)
        implies a == b by {
        lemma_lex_antisym(a, b);
    }
    assert forall|a: Seq<char>, b: Seq<char>, c: Seq<char>|
        #[trigger] f(a, b) && #[trigger] f(b, c) implies f(a, c) by {
        lemma_lex_trans(a, b, c);
    }
    assert forall|a: Seq<char>, b: Seq<char>| #[trigger] f(a, b) || #[trigger] f(b, a) by {
        lemma_lex_conn(a, b);
    }
}

/// Comparison of two strings in the lexicographic order.
pub fn str_lex_leq(a: &str, b: &str) -> (r: bool)
    ensures
        r == lex_leq(a@, b@),
{
    let alen: usize = a.unicode_len();
    let blen: usize = b.unicode_len();
    let min: usize = if alen < blen {
        alen
    } else {
        blen
    };
    let mut i: usize = 0;
    proof {
        assert(a@.subrange(0, alen as int) =~= a@);
        assert(b@.subrange(0, blen as int) =~= b@);
    }
    while i < min
        invariant
            alen == a@.len(),
            blen == b@.len(),
            min <= alen && min <= blen,
            i <= min,
            lex_leq(a@, b@) == lex_leq(
                a@.subrange(i as int, alen as int),
                b@.subrange(i as int, blen as int),
            ),
        decreases min - i,
    {
        let ca = a.get_char(i);
        let cb = b.get_char(i);
        if (ca as u32) < (cb as u32) {
            return true;
        }
        if (ca as u32) > (cb as u32) {
            return false;
        }
        proof {
            assert(a@.subrange(i as int, alen as int).drop_first()
                =~= a@.subrange(i as int + 1, alen as int));
            assert(b@.subrange(i as int, blen as int).drop_first()
                =~= b@.subrange(i as int + 1, blen as int));
        }
        i = i + 1;
    }
    alen <= blen
}

/// Inserts `s` into a sorted vector, keeping it sorted.
fn insert_sorted(v: &mut Vec<String>, s: String)
    requires
        sorted_by(old(v).deep_view(), lex_leq_f()),
    ensures
        sorted_by(final(v).deep_view(), lex_leq_f()),
        final(v).deep_view().to_multiset() == old(v).deep_view().to_multiset().insert(s@),
{
    proof {
        lemma_lex_total();
    }
    let mut k: usize = 0;
    let len: usize = v.len();
    while k < len && str_lex_leq(v[k].as_str(), s.as_str())
        invariant
            len == v@.len(),
            k <= len,
            forall|j: int| 0 <= j < k ==> lex_leq(#[trigger] v.deep_view()[j], s@),
        decreases len - k,
    {
        k = k + 1;
    }
    let ghost dv0 = v.deep_view();
    v.insert(k, s);
    proof {
        let dv = v.deep_view();
        assert(dv =~= dv0.insert(k as int, s@));
        assert(sorted_by(dv, lex_leq_f())) by {
            lemma_lex_total();
            assert forall|x: int, y: int| 0 <= x < y < dv.len()
                implies #[trigger] lex_leq_f()(dv[x], dv[y]) by {
                if y < k {
                    assert(lex_leq_f()(dv0[x], dv0[y]));
                } else if x > k {
                    assert(lex_leq_f()(dv0[x - 1], dv0[y - 1]));
                } else if x < k && y == k {
                    assert(lex_leq(dv0[x], s@));
                } else if x == k && y > k {
                    // s sorts before the untouched tail: v[k] was the first
                    // element not <= s, so s <= v[k] <= the rest
                    if k < dv0.len() {
                        assert(!lex_leq(dv0[k as int], s@));
                        lemma_lex_conn(dv0[k as int], s@);
                        if y - 1 > k {
                            assert(lex_leq_f()(dv0[k as int], dv0[y - 1]));
                            lemma_lex_trans(s@, dv0[k as int], dv0[y - 1]);
                        }
                    }
                } else if x < k && y > k {
                    assert(lex_leq(dv0[x], s@));
                    if k < dv0.len() {
                        assert(!lex_leq(dv0[k as int], s@));
                        lemma_lex_conn(dv0[k as int], s@);
                        if y - 1 > k {
                            assert(lex_leq_f()(dv0[k as int], dv0[y - 1]));
                            lemma_lex_trans(s@, dv0[k as int], dv0[y - 1]);
                        }
                        lemma_lex_trans(dv0[x], s@, dv0[y - 1]);
                    }
                }
            }
        }
        vstd::seq_lib::to_multiset_insert(dv0, k as int, s@);
    }
}

/// Sorts the values of a field lexicographically.
pub fn sort_strings(v: &Vec<String>) -> (r: Vec<String>)
    ensures
        r.deep_view() == v.deep_view().sort_by(lex_leq_f()),
        sorted_by(r.deep_view(), lex_leq_f()),
        r.deep_view().to_multiset() == v.deep_view().to_multiset(),
{
    proof {
        lemma_lex_total();
    }
    let mut out: Vec<String> = Vec::new();
    let len: usize = v.len();
    let mut i: usize = 0;
    proof {
        assert(v.deep_view().subrange(0, 0) =~= Seq::<Seq<char>>::empty());
        assert(out.deep_view() =~= Seq::<Seq<char>>::empty());
    }
    while i < len
        invariant
            len == v@.len(),
            i <= len,
            sorted_by(out.deep_view(), lex_leq_f()),
            out.deep_view().to_multiset() == v.deep_view().subrange(0, i as int).to_multiset(),
        decreases len - i,
    {
        let ghost pre = v.deep_view().subrange(0, i as int);
        let s = v[i].clone();
        insert_sorted(&mut out, s);
        proof {
            assert(v.deep_view().subrange(0, i as int + 1) =~= pre.push(v.deep_view()[i as int]));
            assert(pre.push(v.deep_view()[i as int]).to_multiset()
                == pre.to_multiset().insert(v.deep_view()[i as int]));
        }
        i = i + 1;
    }
    proof {
        assert(v.deep_view().subrange(0, len as int) =~= v.deep_view());
        lemma_lex_total();
        v.deep_view().lemma_sort_by_ensures(lex_leq_f());
        lemma_sorted_unique(out.deep_view(), v.deep_view().sort_by(lex_leq_f()), lex_leq_f());
    }
    out
}

/// Adjacent deduplication of the tail starting at `i`, keeping the last
/// element of each run of equals.
pub open spec fn dedup_adj_from(s: Seq<Seq<char>>, i: int) -> Seq<Seq<char>>
    decreases s.len() - i,
{
    if i < 0 || i >= s.len() {
        Seq::empty()
    } else if i + 1 < s.len() && s[i] == s[i + 1] {
        dedup_adj_from(s, i + 1)
    } else {
        seq![s[i]] + dedup_adj_from(s, i + 1)
    }
}

/// Adjacent deduplication of a whole sequence.
pub open spec fn spec_dedup_adjacent(s: Seq<Seq<char>>) -> Seq<Seq<char>> {
    dedup_adj_from(s, 0)
}

/// No two adjacent elements are equal.
pub open spec fn adj_distinct(s: Seq<Seq<char>>) -> bool {
    forall|j: int| 0 <= j < s.len() - 1 ==> #[trigger] s[j] != s[j + 1]
}

proof fn lemma_dedup_adj_from(s: Seq<Seq<char>>, i: int)
    requires
        sorted_by(s, lex_leq_f()),
        0 <= i,
    ensures
        sorted_by(dedup_adj_from(s, i), lex_leq_f()),
        adj_distinct(dedup_adj_from(s, i)),
        forall|k: int| 0 <= k < dedup_adj_from(s, i).len()
            ==> exists|j: int| i <= j < s.len() && #[trigger] dedup_adj_from(s, i)[k] == s[j],
    decreases s.len() - i,
{
    lemma_lex_total();
    if i >= s.len() {
    } else {
        lemma_dedup_adj_from(s, i + 1);
        let tail = dedup_adj_from(s, i + 1);
        if i + 1 < s.len() && s[i] == s[i + 1] {
        } else {
            let whole = seq![s[i]] + tail;
            assert(whole[0] == s[i]);
            assert forall|k: int| 0 <= k < whole.len()
                implies exists|j: int| i <= j < s.len() && #[trigger] whole[k] == s[j] by {
                if k == 0 {
                    assert(whole[0] == s[i]);
                } else {
                    let j = choose|j: int| i + 1 <= j < s.len() && tail[k - 1] == s[j];
                    assert(whole[k] == s[j]);
                }
            }
            assert(sorted_by(whole, lex_leq_f())) by {
                assert forall|x: int, y: int| 0 <= x < y < whole.len()
                    implies #[trigger] lex_leq_f()(whole[x], whole[y]) by {
                    if x == 0 {
                        let j = choose|j: int| i + 1 <= j < s.len() && tail[y - 1] == s[j];
                        assert(lex_leq_f()(s[i], s[j]));
                    } else {
                        assert(lex_leq_f()(tail[x - 1], tail[y - 1]));
                    }
                }
            }
            assert(adj_distinct(whole)) by {
                assert forall|j: int| 0 <= j < whole.len() - 1
                    implies #[trigger] whole[j] != whole[j + 1] by {
                    if j == 0 {
                        if tail.len() > 0 {
                            let w = choose|w: int| i + 1 <= w < s.len() && tail[0] == s[w];
                            if s[i] == s[w] {
                                // the whole run s[i..=w] would be equal, so
                                // s[i] == s[i+1], contradicting the kept branch
                                assert(i + 1 < s.len());
                                assert(lex_leq_f()(s[i], s[i + 1]));
                                if w > i + 1 {
                                    assert(lex_leq_f()(s[i + 1], s[w]));
                                }
                                lemma_lex_antisym(s[i], s[i + 1]);
                            }
                        }
                    } else {
                        assert(tail[j - 1] != tail[j]);
                    }
                }
            }
        }
    }
}

/// Law: adjacent deduplication of a sorted sequence is sorted and holds no
/// two equal neighbours.
pub proof fn lemma_dedup_adjacent(s: Seq<Seq<char>>)
    requires
        sorted_by(s, lex_leq_f()),
    ensures
        sorted_by(spec_dedup_adjacent(s), lex_leq_f()),
        adj_distinct(spec_dedup_adjacent(s)),
{
    lemma_dedup_adj_from(s, 0);
}

/// Drops each element equal to its successor.
pub fn dedup_adjacent(v: &Vec<String>) -> (r: Vec<String>)
    ensures
        r.deep_view() == spec_dedup_adjacent(v.deep_view()),
{
    let len: usize = v.len();
    let mut out: Vec<String> = Vec::new();
    let mut i: usize = 0;
    proof {
        assert(out.deep_view() =~= Seq::<Seq<char>>::empty());
    }
    while i < len
        invariant
            len == v@.len(),
            i <= len,
            spec_dedup_adjacent(v.deep_view())
                == out.deep_view() + dedup_adj_from(v.deep_view(), i as int),
        decreases len - i,
    {
        let ghost out0 = out.deep_view();
        if i + 1 < len && v[i] == v[i + 1] {
            proof {
                assert(v.deep_view()[i as int] =~= v.deep_view()[i as int + 1]);
            }
        } else {
            out.push(v[i].clone());
            proof {
                assert(out.deep_view() =~= out0.push(v.deep_view()[i as int]));
                assert(out0 + (seq![v.deep_view()[i as int]] + dedup_adj_from(v.deep_view(), i as int + 1))
                    =~= out.deep_view() + dedup_adj_from(v.deep_view(), i as int + 1));
                if i + 1 < len && v.deep_view()[i as int] == v.deep_view()[i as int + 1] {
                    assert(v@[i as int]@ == v@[i as int + 1]@);
                    assert(false);
                }
            }
        }
        i = i + 1;
    }
    proof {
        assert(out.deep_view() + dedup_adj_from(v.deep_view(), len as int) =~= out.deep_view());
    }
    out
}

} // verus!
