//! The order of texts (character by character, by code point, a prefix
//! first; the order of `String`) and sorting a list of strings by it.

use vstd::prelude::*;
use crate::git::texts;
use crate::text::chars_of;

verus! {

/// `a` comes no later than `b`.
pub open spec fn text_le(a: Seq<char>, b: Seq<char>) -> bool
    decreases a.len(),
{
    if a.len() == 0 {
        true
    } else if b.len() == 0 {
        false
    } else if a[0] != b[0] {
        (a[0] as int) < (b[0] as int)
    } else {
        text_le(a.drop_first(), b.drop_first())
    }
}

/// Every text comes no later than those after it.
pub open spec fn texts_sorted(s: Seq<Seq<char>>) -> bool {
    forall|i: int, j: int| 0 <= i < j < s.len() ==> text_le(#[trigger] s[i], #[trigger] s[j])
}

pub proof fn lemma_text_le_total(a: Seq<char>, b: Seq<char>)
    ensures
        text_le(a, b) || text_le(b, a),
    decreases a.len(),
{
    if a.len() > 0 && b.len() > 0 {
        if a[0] == b[0] {
            lemma_text_le_total(a.drop_first(), b.drop_first());
        } else {
            assert(a[0] as int != b[0] as int);
        }
    }
}

pub proof fn lemma_text_le_trans(a: Seq<char>, b: Seq<char>, c: Seq<char>)
    requires
        text_le(a, b),
        text_le(b, c),
    ensures
        text_le(a, c),
    decreases a.len(),
{
    if a.len() > 0 && b.len() > 0 && c.len() > 0 && a[0] == b[0] && b[0] == c[0] {
        lemma_text_le_trans(a.drop_first(), b.drop_first(), c.drop_first());
    }
}

/// Past a common prefix of length `k`, the order is that of the rests.
proof fn lemma_text_le_skip(a: Seq<char>, b: Seq<char>, k: int)
    requires
        0 <= k <= a.len(),
        k <= b.len(),
        forall|i: int| 0 <= i < k ==> a[i] == b[i],
    ensures
        text_le(a, b) == text_le(a.skip(k), b.skip(k)),
    decreases k,
{
    if k > 0 {
        lemma_text_le_skip(a.drop_first(), b.drop_first(), k - 1);
        assert(a.drop_first().skip(k - 1) =~= a.skip(k));
        assert(b.drop_first().skip(k - 1) =~= b.skip(k));
    } else {
        assert(a.skip(0) =~= a);
        assert(b.skip(0) =~= b);
    }
}

/// Does `a` come no later than `b`?
pub fn text_le_exec(a: &str, b: &str) -> (r: bool)
    ensures
        r == text_le(a@, b@),
{
    let av = chars_of(a);
    let bv = chars_of(b);
    let mut i: usize = 0;
    while i < av.len() && i < bv.len() && av[i] == bv[i]
        invariant
            av@ == a@,
            bv@ == b@,
            i <= av@.len(),
            i <= bv@.len(),
            forall|k: int| 0 <= k < i ==> av@[k] == bv@[k],
        decreases av@.len() - i,
    {
        i = i + 1;
    }
    proof {
        lemma_text_le_skip(a@, b@, i as int);
    }
    if i == av.len() {
        proof {
            assert(a@.skip(i as int).len() == 0);
        }
        true
    } else if i == bv.len() {
        proof {
            assert(b@.skip(i as int).len() == 0);
            assert(a@.skip(i as int).len() > 0);
        }
        false
    } else {
        proof {
            assert(a@.skip(i as int)[0] == a@[i as int]);
            assert(b@.skip(i as int)[0] == b@[i as int]);
        }
        av[i] < bv[i]
    }
}

proof fn lemma_insert_sorted(s: Seq<Seq<char>>, p: int, x: Seq<char>)
    requires
        texts_sorted(s),
        0 <= p <= s.len(),
        forall|i: int| 0 <= i < p ==> text_le(s[i], x),
        forall|j: int| p <= j < s.len() ==> text_le(x, s[j]),
    ensures
        texts_sorted(s.insert(p, x)),
{
    let t = s.insert(p, x);
    s.insert_ensures(p, x);
    assert forall|i: int, j: int| 0 <= i < j < t.len() implies text_le(#[trigger] t[i], #[trigger] t[j]) by {
        if j < p {
            assert(t[i] == s[i] && t[j] == s[j]);
        } else if j == p {
            assert(t[i] == s[i] && t[j] == x);
        } else if i < p {
            assert(t[i] == s[i] && t[j] == s[j - 1]);
        } else if i == p {
            assert(t[i] == x && t[j] == s[j - 1]);
        } else {
            assert(t[i] == s[i - 1] && t[j] == s[j - 1]);
        }
    }
}

/// The strings in order (a stable insertion sort): the same strings, each
/// as often, each no later than those after it.
pub fn sort_strings(v: Vec<String>) -> (r: Vec<String>)
    ensures
        texts_sorted(texts(r@)),
        texts(r@).to_multiset() == texts(v@).to_multiset(),
{
    let mut r: Vec<String> = Vec::new();
    let mut k: usize = 0;
    proof {
        assert(texts(r@) =~= Seq::<Seq<char>>::empty());
        assert(texts(v@).take(0) =~= Seq::<Seq<char>>::empty());
    }
    while k < v.len()
        invariant
            k <= v@.len(),
            texts_sorted(texts(r@)),
            texts(r@).to_multiset() == texts(v@).take(k as int).to_multiset(),
        decreases v@.len() - k,
    {
        let x = &v[k];
        let mut p: usize = 0;
        while p < r.len() && text_le_exec(r[p].as_str(), x.as_str())
            invariant
                p <= r@.len(),
                forall|i: int| 0 <= i < p ==> text_le(#[trigger] texts(r@)[i], x@),
            decreases r@.len() - p,
        {
            p = p + 1;
        }
        let ghost s = texts(r@);
        proof {
            if p < r@.len() {
                lemma_text_le_total(s[p as int], x@);
                assert forall|j: int| p <= j < s.len() implies text_le(x@, s[j]) by {
                    if j > p {
                        lemma_text_le_trans(x@, s[p as int], s[j]);
                    }
                }
            }
            lemma_insert_sorted(s, p as int, x@);
            assert(texts(v@).take(k + 1) =~= texts(v@).take(k as int).push(x@));
            vstd::seq_lib::to_multiset_build(texts(v@).take(k as int), x@);
            s.insert_ensures(p as int, x@);
        }
        r.insert(p, x.clone());
        proof {
            assert(texts(r@) =~= s.insert(p as int, x@));
            vstd::seq_lib::to_multiset_insert(s, p as int, v@[k as int]@);
            assert(texts(r@).to_multiset() == s.to_multiset().insert(v@[k as int]@));
        }
        k = k + 1;
    }
    proof {
        assert(texts(v@).take(k as int) =~= texts(v@));
    }
    r
}

} // verus!
