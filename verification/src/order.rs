//! Stable ordering by a numeric key.

use vstd::prelude::*;

verus! {

/// `r` lists every index of `keys` once, by nondecreasing key, and indices
/// with equal keys keep their relative order.
pub open spec fn is_stable_order(keys: Seq<u64>, r: Seq<usize>) -> bool {
    &&& r.len() == keys.len()
    &&& forall|i: int| 0 <= i < r.len() ==> #[trigger] r[i] < keys.len()
    &&& forall|i: int, j: int| 0 <= i < j < r.len() ==> #[trigger] r[i] != #[trigger] r[j]
    &&& forall|i: int, j: int| 0 <= i < j < r.len() ==> keys[#[trigger] r[i] as int] <= keys[#[trigger] r[j] as int]
    &&& forall|i: int, j: int| 0 <= i < j < r.len() && keys[r[i] as int] == keys[r[j] as int] ==> #[trigger] r[i] < #[trigger] r[j]
}

/// The indices of `keys` in stable order of their keys.
pub fn stable_order(keys: &Vec<u64>) -> (r: Vec<usize>)
    ensures
        is_stable_order(keys@, r@),
{
    let n = keys.len();
    let mut r: Vec<usize> = Vec::new();
    let mut i: usize = 0;
    while i < n
        invariant
            i <= n,
            n == keys@.len(),
            r@.len() == i,
            forall|a: int| 0 <= a < r@.len() ==> #[trigger] r@[a] < i,
            forall|a: int, b: int| 0 <= a < b < r@.len() ==> #[trigger] r@[a] != #[trigger] r@[b],
            forall|a: int, b: int| 0 <= a < b < r@.len() ==> keys@[#[trigger] r@[a] as int] <= keys@[#[trigger] r@[b] as int],
            forall|a: int, b: int| 0 <= a < b < r@.len() && keys@[r@[a] as int] == keys@[r@[b] as int] ==> #[trigger] r@[a] < #[trigger] r@[b],
        decreases n - i,
    {
        let k = keys[i];
        let mut p: usize = 0;
        while p < r.len() && keys[r[p]] <= k
            invariant
                p <= r@.len(),
                r@.len() == i,
                i < n,
                n == keys@.len(),
                k == keys@[i as int],
                forall|a: int| 0 <= a < r@.len() ==> #[trigger] r@[a] < i,
                forall|a: int| 0 <= a < p ==> keys@[#[trigger] r@[a] as int] <= k,
            decreases r@.len() - p,
        {
            p = p + 1;
        }
        proof {
            if p < r@.len() {
                assert(keys@[r@[p as int] as int] > k);
            }
            assert forall|a: int| p <= a < r@.len() implies keys@[#[trigger] r@[a] as int] > k by {
                if p < a {
                    assert(keys@[r@[p as int] as int] <= keys@[r@[a] as int]);
                }
            }
        }
        let ghost old_r = r@;
        r.insert(p, i);
        proof {
            assert forall|a: int| 0 <= a < r@.len() implies #[trigger] r@[a] < i + 1 by {
                if a < p {
                    assert(r@[a] == old_r[a]);
                } else if a > p {
                    assert(r@[a] == old_r[a - 1]);
                }
            }
            assert forall|a: int, b: int| 0 <= a < b < r@.len() implies #[trigger] r@[a] != #[trigger] r@[b] by {
                if a < p && b < p {
                    assert(old_r[a] != old_r[b]);
                } else if a < p && b > p {
                    assert(old_r[a] != old_r[b - 1]);
                } else if a > p && b > p {
                    assert(old_r[a - 1] != old_r[b - 1]);
                } else if a == p {
                    assert(old_r[b - 1] < i);
                } else {
                    assert(old_r[a] < i);
                }
            }
            assert forall|a: int, b: int| 0 <= a < b < r@.len() implies keys@[#[trigger] r@[a] as int] <= keys@[#[trigger] r@[b] as int] by {
                if a < p && b < p {
                    assert(keys@[old_r[a] as int] <= keys@[old_r[b] as int]);
                } else if a < p && b > p {
                    assert(keys@[old_r[a] as int] <= keys@[old_r[b - 1] as int]);
                } else if a > p && b > p {
                    assert(keys@[old_r[a - 1] as int] <= keys@[old_r[b - 1] as int]);
                } else if a == p {
                    assert(keys@[old_r[b - 1] as int] > k);
                } else {
                    assert(keys@[old_r[a] as int] <= k);
                }
            }
            assert forall|a: int, b: int| 0 <= a < b < r@.len() && keys@[r@[a] as int] == keys@[r@[b] as int] implies #[trigger] r@[a] < #[trigger] r@[b] by {
                if a < p && b < p {
                    assert(old_r[a] < old_r[b]);
                } else if a < p && b > p {
                    assert(old_r[a] < old_r[b - 1]);
                } else if a > p && b > p {
                    assert(old_r[a - 1] < old_r[b - 1]);
                } else if a == p {
                    assert(keys@[old_r[b - 1] as int] > k);
                } else {
                    assert(old_r[a] < i);
                }
            }
        }
        i = i + 1;
    }
    r
}

/// A stable order lists every index of the keys.
proof fn lemma_stable_order_covers(keys: Seq<u64>, r: Seq<usize>, x: usize)
    requires
        is_stable_order(keys, r),
        x < keys.len(),
    ensures
        exists|i: int| 0 <= i < r.len() && r[i] == x,
{
    broadcast use vstd::seq_lib::seq_to_set_is_finite;
    let n = keys.len() as int;
    let s = r.map_values(|v: usize| v as int);
    assert forall|i: int, j: int| 0 <= i < s.len() && 0 <= j < s.len() && i != j implies s[i] != s[j] by {
        if i < j {
            assert(r[i] != r[j]);
        } else {
            assert(r[j] != r[i]);
        }
    }
    assert(s.no_duplicates());
    s.unique_seq_to_set();
    vstd::set_lib::lemma_int_range(0, n);
    let range = vstd::set_lib::set_int_range(0, n);
    assert forall|v: int| #[trigger] s.to_set().contains(v) implies range.contains(v) by {
        let i = choose|i: int| 0 <= i < s.len() && s[i] == v;
        assert(r[i] < keys.len());
    }
    vstd::set_lib::lemma_subset_equality(s.to_set(), range);
    assert(range.contains(x as int));
    assert(s.to_set().contains(x as int));
    let i = choose|i: int| 0 <= i < s.len() && s[i] == x as int;
    assert(r[i] == x);
}

proof fn lemma_stable_orders_agree_from(keys: Seq<u64>, r1: Seq<usize>, r2: Seq<usize>, i: int)
    requires
        is_stable_order(keys, r1),
        is_stable_order(keys, r2),
        0 <= i <= keys.len(),
        forall|k: int| 0 <= k < i ==> r1[k] == r2[k],
    ensures
        r1 == r2,
    decreases keys.len() - i,
{
    if i == keys.len() {
        assert(r1 =~= r2);
    } else {
        let a = r1[i];
        let b = r2[i];
        if a != b {
            lemma_stable_order_covers(keys, r2, a);
            lemma_stable_order_covers(keys, r1, b);
            let j = choose|j: int| 0 <= j < r2.len() && r2[j] == a;
            let k = choose|k: int| 0 <= k < r1.len() && r1[k] == b;
            if j < i {
                assert(r1[j] == a);
            }
            if k < i {
                assert(r2[k] == b);
            }
            assert(i < k && i < j);
            assert(keys[r1[i] as int] <= keys[r1[k] as int]);
            assert(keys[r2[i] as int] <= keys[r2[j] as int]);
        }
        lemma_stable_orders_agree_from(keys, r1, r2, i + 1);
    }
}

/// The stable order of a list of keys is unique: sorting by key while
/// keeping equal keys in place has exactly one outcome.
pub proof fn law_stable_order_unique(keys: Seq<u64>, r1: Seq<usize>, r2: Seq<usize>)
    requires
        is_stable_order(keys, r1),
        is_stable_order(keys, r2),
    ensures
        r1 == r2,
{
    lemma_stable_orders_agree_from(keys, r1, r2, 0);
}

} // verus!
