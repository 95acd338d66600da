//! Ordering of texts, as `String`'s own order defines it: lexicographic on
//! the UTF-8 bytes.
use vstd::prelude::*;
use vstd::seq_lib::{to_multiset_len, to_multiset_remove};
use vstd::utf8::encode_utf8;

use crate::text::{holds, no_duplicates, vec_holds};

verus! {

broadcast use vstd::seq_lib::group_to_multiset_ensures;

/// `a` comes no later than `b` in lexicographic byte order.
pub open spec fn bytes_le(a: Seq<u8>, b: Seq<u8>) -> bool
    decreases a.len(),
{
    if a.len() == 0 {
        true
    } else if b.len() == 0 {
        false
    } else if a[0] != b[0] {
        a[0] < b[0]
    } else {
        bytes_le(a.drop_first(), b.drop_first())
    }
}

/// `a` comes no later than `b` in the order of strings.
pub open spec fn text_le(a: Seq<char>, b: Seq<char>) -> bool {
    bytes_le(encode_utf8(a), encode_utf8(b))
}

/// The strings of `s` are in non-decreasing order.
pub open spec fn sorted_texts(s: Seq<String>) -> bool {
    forall|i: int, j: int| 0 <= i < j < s.len() ==> text_le(s[i]@, s[j]@)
}

/// Relies on `slice::sort`, which sorts in non-decreasing order and keeps
/// the elements, and on `Ord for String`, which orders strings
/// lexicographically by their bytes.
#[verifier::external_body]
fn sort_strings(v: &mut Vec<String>)
    ensures
        final(v)@.to_multiset() == old(v)@.to_multiset(),
        sorted_texts(final(v)@),
{
    v.sort();
}

/// `v` in the order of strings.
pub fn sorted(v: Vec<String>) -> (r: Vec<String>)
    ensures
        r@.to_multiset() == v@.to_multiset(),
        sorted_texts(r@),
{
    let mut v = v;
    sort_strings(&mut v);
    v
}

/// Two sequences with the same elements hold the same texts.
pub proof fn lemma_same_elements_same_texts(a: Seq<String>, b: Seq<String>, x: Seq<char>)
    requires
        a.to_multiset() == b.to_multiset(),
    ensures
        holds(a, x) <==> holds(b, x),
{
    if holds(a, x) {
        let i = choose|i: int| 0 <= i < a.len() && a[i]@ == x;
        assert(a.contains(a[i]));
        assert(b.to_multiset().count(a[i]) > 0);
        assert(b.contains(a[i]));
    }
    if holds(b, x) {
        let i = choose|i: int| 0 <= i < b.len() && b[i]@ == x;
        assert(b.contains(b[i]));
        assert(a.to_multiset().count(b[i]) > 0);
        assert(a.contains(b[i]));
    }
}

/// The distinct texts of `v`, each once, in the order of strings.
pub fn sorted_distinct(v: Vec<String>) -> (r: Vec<String>)
    ensures
        sorted_texts(r@),
        no_duplicates(r@),
        forall|x: Seq<char>| holds(r@, x) <==> holds(v@, x),
{
    let s = sorted(v);
    let mut out: Vec<String> = Vec::new();
    let mut i: usize = 0;
    while i < s.len()
        invariant
            i <= s@.len(),
            sorted_texts(s@),
            sorted_texts(out@),
            no_duplicates(out@),
            forall|k: int| #![trigger out@[k]] 0 <= k < out@.len() ==> exists|j: int| 0 <= j < i && out@[k]@ == s@[j]@,
            forall|x: Seq<char>| holds(out@, x) <==> exists|j: int| 0 <= j < i && s@[j]@ == x,
        decreases s@.len() - i,
    {
        let ghost out0 = out@;
        if !vec_holds(&out, s[i].as_str()) {
            out.push(s[i].clone());
            proof {
                assert forall|p: int, q: int| 0 <= p < q < out@.len() implies text_le(out@[p]@, out@[q]@) by {
                    if q == out0.len() {
                        let j = choose|j: int| 0 <= j < i && out0[p]@ == s@[j]@;
                    }
                }
                assert forall|p: int, q: int| 0 <= p < q < out@.len() implies out@[p]@ != out@[q]@ by {
                    if q == out0.len() {
                        assert(out0[p]@ != s@[i as int]@);
                    }
                }
                assert forall|k: int| #![trigger out@[k]] 0 <= k < out@.len() implies exists|j: int| 0 <= j < i + 1 && out@[k]@ == s@[j]@ by {
                    if k < out0.len() {
                        let j = choose|j: int| 0 <= j < i && out0[k]@ == s@[j]@;
                        assert(0 <= j < i + 1 && out@[k]@ == s@[j]@);
                    } else {
                        assert(out@[k]@ == s@[i as int]@);
                    }
                }
            }
        }
        proof {
            assert forall|x: Seq<char>| holds(out@, x) <==> exists|j: int| 0 <= j < i + 1 && s@[j]@ == x by {
                if holds(out@, x) {
                    let k = choose|k: int| 0 <= k < out@.len() && out@[k]@ == x;
                    if k < out0.len() {
                        assert(holds(out0, x));
                        let j = choose|j: int| 0 <= j < i && s@[j]@ == x;
                        assert(0 <= j < i + 1 && s@[j]@ == x);
                    } else {
                        assert(s@[i as int]@ == x);
                    }
                }
                if exists|j: int| 0 <= j < i + 1 && s@[j]@ == x {
                    let j = choose|j: int| 0 <= j < i + 1 && s@[j]@ == x;
                    if j < i {
                        assert(holds(out0, x));
                        let k = choose|k: int| 0 <= k < out0.len() && out0[k]@ == x;
                        assert(out@[k]@ == x);
                    } else if out@.len() > out0.len() {
                        assert(out@[out0.len() as int]@ == x);
                    } else {
                        assert(holds(out0, s@[i as int]@));
                    }
                }
            }
        }
        i = i + 1;
    }
    proof {
        assert forall|x: Seq<char>| holds(out@, x) <==> holds(v@, x) by {
            lemma_same_elements_same_texts(s@, v@, x);
        }
    }
    out
}

/// Sequences with the same elements have views with the same elements.
pub proof fn lemma_same_elements_same_views(a: Seq<String>, b: Seq<String>)
    requires
        a.to_multiset() == b.to_multiset(),
    ensures
        crate::text::views(a).to_multiset() == crate::text::views(b).to_multiset(),
    decreases a.len(),
{
    broadcast use vstd::multiset::group_multiset_axioms;

    if a.len() == 0 {
        to_multiset_len(a);
        to_multiset_len(b);
        assert(b.len() == 0);
        assert(crate::text::views(a) =~= Seq::<Seq<char>>::empty());
        assert(crate::text::views(b) =~= Seq::<Seq<char>>::empty());
    } else {
        let x = a.last();
        assert(a.contains(x)) by {
            assert(a[a.len() - 1] == x);
        }
        assert(b.to_multiset().count(x) > 0);
        assert(b.contains(x));
        let j = choose|j: int| 0 <= j < b.len() && b[j] == x;
        let a1 = a.drop_last();
        let b1 = b.remove(j);
        to_multiset_remove(a, a.len() - 1);
        assert(a.remove(a.len() - 1) =~= a1);
        to_multiset_remove(b, j);
        assert(a1.to_multiset() =~= b1.to_multiset());
        lemma_same_elements_same_views(a1, b1);
        let va = crate::text::views(a);
        let vb = crate::text::views(b);
        assert(crate::text::views(a1) =~= va.remove(va.len() - 1));
        assert(crate::text::views(b1) =~= vb.remove(j));
        to_multiset_remove(va, va.len() - 1);
        to_multiset_remove(vb, j);
        assert(va[va.len() - 1] == x@);
        assert(vb[j] == x@);
        assert(va.contains(x@));
        assert(vb.contains(x@));
        assert(va.to_multiset().count(x@) > 0);
        assert(vb.to_multiset().count(x@) > 0);
        assert(va.to_multiset() =~= va.to_multiset().remove(x@).insert(x@));
        assert(vb.to_multiset() =~= vb.to_multiset().remove(x@).insert(x@));
    }
}

} // verus!
