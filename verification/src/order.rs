//! Stable ordering by text keys, as `sort_by` with `String::cmp` orders.
use vstd::prelude::*;
use crate::filestorage::{lemma_seq_le_total, seq_le, string_le};

verus! {

/// The lexicographic order is transitive.
pub proof fn lemma_seq_le_trans(a: Seq<char>, b: Seq<char>, c: Seq<char>)
    requires
        seq_le(a, b),
        seq_le(b, c),
    ensures
        seq_le(a, c),
    decreases a.len(),
{
    if a.len() > 0 && b.len() > 0 && c.len() > 0 && a[0] == b[0] && b[0] == c[0] {
        lemma_seq_le_trans(a.drop_first(), b.drop_first(), c.drop_first());
    }
}

/// The lexicographic order is antisymmetric.
pub proof fn lemma_seq_le_antisym(a: Seq<char>, b: Seq<char>)
    requires
        seq_le(a, b),
        seq_le(b, a),
    ensures
        a == b,
    decreases a.len(),
{
    if a.len() > 0 && b.len() > 0 {
        lemma_seq_le_antisym(a.drop_first(), b.drop_first());
        assert(a =~= seq![a[0]] + a.drop_first());
        assert(b =~= seq![b[0]] + b.drop_first());
    } else if a.len() == 0 && b.len() == 0 {
        assert(a =~= b);
    }
}

/// Position `a` comes before position `b` when ordering by `keys`: its
/// key is smaller, or the keys are equal and `a` is earlier.
pub open spec fn key_before(keys: Seq<Seq<char>>, a: int, b: int) -> bool {
    ||| (seq_le(keys[a], keys[b]) && keys[a] != keys[b])
    ||| (keys[a] == keys[b] && a < b)
}

/// `p` lists the positions of `keys` ordered by key, equal keys in their
/// original order: the order a stable sort by key makes.
pub open spec fn is_stable_order(keys: Seq<Seq<char>>, p: Seq<int>) -> bool {
    &&& p.len() == keys.len()
    &&& forall|i: int| 0 <= i < p.len() ==> 0 <= #[trigger] p[i] < keys.len()
    &&& forall|i: int, j: int| 0 <= i < j < p.len() ==> key_before(keys, #[trigger] p[i], #[trigger] p[j])
}

/// `r` is `src` stably sorted by `key`.
pub open spec fn stably_sorted<T>(r: Seq<T>, src: Seq<T>, key: spec_fn(T) -> Seq<char>) -> bool {
    exists|p: Seq<int>|
        #[trigger] is_stable_order(src.map_values(key), p) && r.len() == p.len() && forall|i: int|
            0 <= i < r.len() ==> r[i] == src[#[trigger] p[i]]
}

pub open spec fn positions(p: Seq<usize>) -> Seq<int> {
    p.map_values(|i: usize| i as int)
}

/// The positions of `keys` in the order a stable sort by key puts them.
pub fn stable_order(keys: &Vec<String>) -> (p: Vec<usize>)
    ensures
        is_stable_order(keys@.map_values(|s: String| s@), positions(p@)),
{
    let ghost ks = keys@.map_values(|s: String| s@);
    let mut p: Vec<usize> = Vec::new();
    let mut i: usize = 0;
    while i < keys.len()
        invariant
            i <= keys.len(),
            ks == keys@.map_values(|s: String| s@),
            p@.len() == i,
            forall|m: int| 0 <= m < p@.len() ==> #[trigger] p@[m] < i,
            forall|m: int, n: int|
                0 <= m < n < p@.len() ==> key_before(ks, #[trigger] p@[m] as int, #[trigger] p@[n] as int),
        decreases keys.len() - i,
    {
        let mut k: usize = p.len();
        while k > 0 && !string_le(keys[p[k - 1]].as_str(), keys[i].as_str())
            invariant
                k <= p@.len(),
                p@.len() == i,
                i < keys.len(),
                ks == keys@.map_values(|s: String| s@),
                forall|m: int| 0 <= m < p@.len() ==> #[trigger] p@[m] < i,
                forall|m: int| k <= m < p@.len() ==> !seq_le(#[trigger] ks[p@[m] as int], ks[i as int]),
            decreases k,
        {
            assert(ks[p@[k - 1] as int] == keys@[p@[k - 1] as int]@);
            k = k - 1;
        }
        proof {
            if k > 0 {
                assert(ks[p@[k - 1] as int] == keys@[p@[k - 1] as int]@);
                assert(seq_le(ks[p@[k - 1] as int], ks[i as int]));
            }
        }
        let ghost old_p = p@;
        p.insert(k, i);
        proof {
            assert forall|m: int| 0 <= m < p@.len() implies #[trigger] p@[m] < i + 1 by {
                if m < k {
                    assert(p@[m] == old_p[m]);
                } else if m > k {
                    assert(p@[m] == old_p[m - 1]);
                }
            }
            assert forall|m: int, n: int|
                0 <= m < n < p@.len() implies key_before(ks, #[trigger] p@[m] as int, #[trigger] p@[n] as int) by {
                let a = p@[m] as int;
                let b = p@[n] as int;
                if n < k {
                    assert(a == old_p[m] && b == old_p[n]);
                } else if m > k {
                    assert(a == old_p[m - 1] && b == old_p[n - 1]);
                } else if m < k && n > k {
                    assert(a == old_p[m] && b == old_p[n - 1]);
                } else if m == k {
                    assert(a == i);
                    assert(b == old_p[n - 1]);
                    assert(!seq_le(ks[b], ks[i as int]));
                    lemma_seq_le_total(ks[b], ks[i as int]);
                    assert(ks[i as int] != ks[b]) by {
                        if ks[i as int] == ks[b] {
                            lemma_seq_le_total(ks[b], ks[b]);
                        }
                    }
                } else {
                    assert(n == k);
                    assert(b == i);
                    assert(a == old_p[m]);
                    let last = old_p[k - 1] as int;
                    assert(seq_le(ks[last], ks[i as int]));
                    if m < k - 1 {
                        assert(key_before(ks, a, last));
                        if ks[a] == ks[last] {
                        } else {
                            lemma_seq_le_trans(ks[a], ks[last], ks[i as int]);
                        }
                    }
                    assert(seq_le(ks[a], ks[i as int]));
                    assert(a < i);
                }
            }
        }
        i = i + 1;
    }
    proof {
        assert forall|m: int| 0 <= m < positions(p@).len() implies 0 <= #[trigger] positions(p@)[m] < ks.len() by {
            assert(positions(p@)[m] == p@[m] as int);
        }
        assert forall|m: int, n: int|
            0 <= m < n < positions(p@).len() implies key_before(ks, #[trigger] positions(p@)[m], #[trigger] positions(p@)[n]) by {
            assert(positions(p@)[m] == p@[m] as int);
            assert(positions(p@)[n] == p@[n] as int);
        }
    }
    p
}

/// `p` is to be read as an order of `src` (a trigger for the statements
/// about orders).
pub open spec fn orders<T>(src: Seq<T>, p: Seq<int>) -> bool {
    p.len() == src.len()
}

/// Position `a` comes before position `b` when ordering by the numbers
/// `keys`, equal numbers in their original order.
pub open spec fn int_before(keys: Seq<int>, a: int, b: int) -> bool {
    keys[a] < keys[b] || (keys[a] == keys[b] && a < b)
}

/// `p` lists the positions of `keys` in the order a stable sort by number
/// makes.
pub open spec fn is_int_order(keys: Seq<int>, p: Seq<int>) -> bool {
    &&& p.len() == keys.len()
    &&& forall|i: int| 0 <= i < p.len() ==> 0 <= #[trigger] p[i] < keys.len()
    &&& forall|i: int, j: int| 0 <= i < j < p.len() ==> int_before(keys, #[trigger] p[i], #[trigger] p[j])
}

/// The positions of `keys` in the order a stable sort by number puts them.
pub fn stable_order_ints(keys: &Vec<i128>) -> (p: Vec<usize>)
    ensures
        is_int_order(keys@.map_values(|k: i128| k as int), positions(p@)),
{
    let ghost ks = keys@.map_values(|k: i128| k as int);
    let mut p: Vec<usize> = Vec::new();
    let mut i: usize = 0;
    while i < keys.len()
        invariant
            i <= keys.len(),
            ks == keys@.map_values(|k: i128| k as int),
            p@.len() == i,
            forall|m: int| 0 <= m < p@.len() ==> #[trigger] p@[m] < i,
            forall|m: int, n: int|
                0 <= m < n < p@.len() ==> int_before(ks, #[trigger] p@[m] as int, #[trigger] p@[n] as int),
        decreases keys.len() - i,
    {
        let mut k: usize = p.len();
        while k > 0 && keys[p[k - 1]] > keys[i]
            invariant
                k <= p@.len(),
                p@.len() == i,
                i < keys.len(),
                ks == keys@.map_values(|k: i128| k as int),
                forall|m: int| 0 <= m < p@.len() ==> #[trigger] p@[m] < i,
                forall|m: int| k <= m < p@.len() ==> #[trigger] ks[p@[m] as int] > ks[i as int],
            decreases k,
        {
            k = k - 1;
        }
        let ghost old_p = p@;
        p.insert(k, i);
        proof {
            assert forall|m: int| 0 <= m < p@.len() implies #[trigger] p@[m] < i + 1 by {
                if m < k {
                    assert(p@[m] == old_p[m]);
                } else if m > k {
                    assert(p@[m] == old_p[m - 1]);
                }
            }
            assert forall|m: int, n: int|
                0 <= m < n < p@.len() implies int_before(ks, #[trigger] p@[m] as int, #[trigger] p@[n] as int) by {
                if n < k {
                    assert(p@[m] == old_p[m] && p@[n] == old_p[n]);
                } else if m > k {
                    assert(p@[m] == old_p[m - 1] && p@[n] == old_p[n - 1]);
                } else if m < k && n > k {
                    assert(p@[m] == old_p[m] && p@[n] == old_p[n - 1]);
                } else if m == k {
                    assert(p@[n] == old_p[n - 1]);
                } else {
                    assert(p@[m] == old_p[m]);
                    if m < k - 1 {
                        assert(int_before(ks, old_p[m] as int, old_p[k - 1] as int));
                    }
                }
            }
        }
        i = i + 1;
    }
    proof {
        assert forall|m: int| 0 <= m < positions(p@).len() implies 0 <= #[trigger] positions(p@)[m] < ks.len() by {
            assert(positions(p@)[m] == p@[m] as int);
        }
        assert forall|m: int, n: int|
            0 <= m < n < positions(p@).len() implies int_before(ks, #[trigger] positions(p@)[m], #[trigger] positions(p@)[n]) by {
            assert(positions(p@)[m] == p@[m] as int);
            assert(positions(p@)[n] == p@[n] as int);
        }
    }
    p
}

} // verus!
