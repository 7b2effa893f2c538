//! Sorting of fee values, with the sorted arrangement of a sequence as
//! its specification.
use vstd::prelude::*;

verus! {

broadcast use vstd::seq_lib::group_to_multiset_ensures;

/// Whether `s` is in non-decreasing order.
pub open spec fn sorted(s: Seq<u64>) -> bool {
    forall|i: int, j: int| 0 <= i <= j < s.len() ==> s[i] <= s[j]
}

/// Whether `t` is `s` rearranged into non-decreasing order.
pub open spec fn is_sorted_permutation(t: Seq<u64>, s: Seq<u64>) -> bool {
    sorted(t) && t.to_multiset() == s.to_multiset()
}

/// The values of `s` in non-decreasing order.
pub open spec fn sorted_of(s: Seq<u64>) -> Seq<u64> {
    choose|t: Seq<u64>| is_sorted_permutation(t, s)
}

/// Two sorted sequences holding the same values are equal.
pub proof fn lemma_sorted_unique(a: Seq<u64>, b: Seq<u64>)
    requires
        sorted(a),
        sorted(b),
        a.to_multiset() == b.to_multiset(),
    ensures
        a == b,
    decreases a.len(),
{
    assert(a.len() == a.to_multiset().len());
    assert(b.len() == b.to_multiset().len());
    if a.len() == 0 {
        assert(a =~= b);
    } else {
        let x = a[0];
        let y = b[0];
        assert(a.contains(x));
        assert(a.to_multiset().count(x) > 0);
        assert(b.contains(x));
        let j = choose|j: int| 0 <= j < b.len() && b[j] == x;
        assert(y <= x);
        assert(b.contains(y));
        assert(b.to_multiset().count(y) > 0);
        assert(a.to_multiset().count(y) > 0);
        assert(a.contains(y));
        let k = choose|k: int| 0 <= k < a.len() && a[k] == y;
        assert(x <= y);
        let a1 = a.remove(0);
        let b1 = b.remove(0);
        assert(a1.to_multiset() == a.to_multiset().remove(x));
        assert(b1.to_multiset() == b.to_multiset().remove(y));
        assert(sorted(a1)) by {
            assert forall|i: int, j: int| 0 <= i <= j < a1.len() implies a1[i] <= a1[j] by {
                assert(a1[i] == a[i + 1]);
                assert(a1[j] == a[j + 1]);
            }
        }
        assert(sorted(b1)) by {
            assert forall|i: int, j: int| 0 <= i <= j < b1.len() implies b1[i] <= b1[j] by {
                assert(b1[i] == b[i + 1]);
                assert(b1[j] == b[j + 1]);
            }
        }
        lemma_sorted_unique(a1, b1);
        assert forall|i: int| 0 <= i < a.len() implies a[i] == b[i] by {
            if i > 0 {
                assert(a[i] == a1[i - 1]);
                assert(b[i] == b1[i - 1]);
            }
        }
        assert(a =~= b);
    }
}

/// A sorted rearrangement of `s` is the one `sorted_of` names.
pub proof fn lemma_sorted_of(t: Seq<u64>, s: Seq<u64>)
    requires
        is_sorted_permutation(t, s),
    ensures
        sorted_of(s) == t,
{
    let u = sorted_of(s);
    assert(is_sorted_permutation(u, s));
    lemma_sorted_unique(u, t);
}

/// How many leading entries of sorted `t` are at most `x`: where `x` goes.
pub open spec fn insert_position(t: Seq<u64>, x: u64) -> int
    decreases t.len(),
{
    if t.len() == 0 {
        0
    } else if t.last() <= x {
        t.len() as int
    } else {
        insert_position(t.drop_last(), x)
    }
}

proof fn lemma_insert_position(t: Seq<u64>, x: u64)
    requires
        sorted(t),
    ensures
        0 <= insert_position(t, x) <= t.len(),
        forall|j: int| 0 <= j < insert_position(t, x) ==> t[j] <= x,
        insert_position(t, x) == t.len() || x < t[insert_position(t, x)],
    decreases t.len(),
{
    if t.len() > 0 && t.last() > x {
        let u = t.drop_last();
        assert(sorted(u)) by {
            assert forall|i: int, j: int| 0 <= i <= j < u.len() implies u[i] <= u[j] by {
                assert(u[i] == t[i] && u[j] == t[j]);
            }
        }
        lemma_insert_position(u, x);
        let p = insert_position(u, x);
        assert forall|j: int| 0 <= j < p implies t[j] <= x by {
            assert(u[j] == t[j]);
        }
        if p < u.len() {
            assert(u[p] == t[p]);
        }
    }
}

/// Every sequence has a sorted rearrangement.
pub proof fn lemma_sorted_of_exists(s: Seq<u64>)
    ensures
        is_sorted_permutation(sorted_of(s), s),
    decreases s.len(),
{
    if s.len() == 0 {
        assert(is_sorted_permutation(s, s));
    } else {
        let r = s.drop_last();
        lemma_sorted_of_exists(r);
        let t = sorted_of(r);
        let x = s.last();
        lemma_insert_position(t, x);
        let pos = insert_position(t, x);
        let u = t.insert(pos, x);
        assert(sorted(u)) by {
            assert forall|a: int, b: int| 0 <= a <= b < u.len() implies u[a] <= u[b] by {
                if a < pos && b < pos {
                    assert(u[a] == t[a] && u[b] == t[b]);
                } else if a < pos && b == pos {
                    assert(u[a] == t[a]);
                } else if a < pos {
                    assert(u[a] == t[a] && u[b] == t[b - 1]);
                    assert(t[a] <= t[b - 1]);
                } else if a == pos && b == pos {
                } else if a == pos {
                    assert(u[b] == t[b - 1]);
                    assert(x < t[pos]);
                    assert(t[pos] <= t[b - 1]);
                } else {
                    assert(u[a] == t[a - 1] && u[b] == t[b - 1]);
                    assert(t[a - 1] <= t[b - 1]);
                }
            }
        }
        assert(s =~= r.push(x));
        assert(u.to_multiset() == s.to_multiset());
        assert(is_sorted_permutation(u, s));
    }
}

/// A sequence and its sorted rearrangement have the same length.
pub proof fn lemma_sorted_of_len(s: Seq<u64>)
    ensures
        sorted_of(s).len() == s.len(),
{
    lemma_sorted_of_exists(s);
    assert(sorted_of(s).len() == sorted_of(s).to_multiset().len());
    assert(s.len() == s.to_multiset().len());
}

/// Two sequences with the same values contain the same elements.
pub proof fn lemma_same_elements(t: Seq<u64>, s: Seq<u64>, x: u64)
    requires
        t.to_multiset() == s.to_multiset(),
    ensures
        t.contains(x) <==> s.contains(x),
{
    assert(t.contains(x) <==> t.to_multiset().count(x) > 0);
    assert(s.contains(x) <==> s.to_multiset().count(x) > 0);
}

/// The values of `v` in non-decreasing order.
pub fn sort_u64(v: &[u64]) -> (res: Vec<u64>)
    ensures
        res@ == sorted_of(v@),
        sorted(res@),
        res@.to_multiset() == v@.to_multiset(),
        res@.len() == v@.len(),
{
    let mut res: Vec<u64> = Vec::new();
    for i in 0..v.len()
        invariant
            sorted(res@),
            res@.to_multiset() == v@.take(i as int).to_multiset(),
    {
        let x = v[i];
        let mut pos: usize = 0;
        while pos < res.len() && res[pos] <= x
            invariant
                pos <= res.len(),
                forall|j: int| 0 <= j < pos ==> res@[j] <= x,
            decreases res.len() - pos,
        {
            pos = pos + 1;
        }
        let ghost old_res = res@;
        res.insert(pos, x);
        assert(res@ == old_res.insert(pos as int, x));
        assert(sorted(res@)) by {
            assert forall|a: int, b: int| 0 <= a <= b < res@.len() implies res@[a] <= res@[b] by {
                if a < pos && b < pos {
                } else if a < pos && b == pos {
                } else if a < pos {
                    assert(old_res[a] <= old_res[b - 1]);
                } else if a == pos && b == pos {
                } else if a == pos {
                    assert(pos < old_res.len() && x < old_res[pos as int]);
                    assert(old_res[pos as int] <= old_res[b - 1]);
                } else {
                    assert(old_res[a - 1] <= old_res[b - 1]);
                }
            }
        }
        assert(v@.take(i + 1) =~= v@.take(i as int).push(x));
    }
    assert(v@.take(v.len() as int) =~= v@);
    proof {
        lemma_sorted_of(res@, v@);
    }
    assert(res@.len() == res@.to_multiset().len());
    assert(v@.len() == v@.to_multiset().len());
    res
}

} // verus!
