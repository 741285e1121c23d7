//! Sorting and order statistics on integer samples.
use vstd::prelude::*;
use vstd::relations::{sorted_by, total_ordering};

verus! {

broadcast use vstd::seq_lib::group_to_multiset_ensures;

/// `<=` on `u128`.
pub open spec fn le_u128(a: u128, b: u128) -> bool {
    a <= b
}

/// The samples in ascending order.
pub open spec fn sorted_u128s(s: Seq<u128>) -> Seq<u128> {
    s.sort_by(|a: u128, b: u128| le_u128(a, b))
}

proof fn lemma_le_u128_total()
    ensures
        total_ordering(|a: u128, b: u128| le_u128(a, b)),
{
}

/// An ascending permutation of `s` is `sorted_u128s(s)`.
pub proof fn lemma_sorted_is_sort(s: Seq<u128>, t: Seq<u128>)
    requires
        sorted_by(t, |a: u128, b: u128| le_u128(a, b)),
        t.to_multiset() == s.to_multiset(),
    ensures
        t == sorted_u128s(s),
{
    lemma_le_u128_total();
    s.lemma_sort_by_ensures(|a: u128, b: u128| le_u128(a, b));
    vstd::seq_lib::lemma_sorted_unique(
        t,
        sorted_u128s(s),
        |a: u128, b: u128| le_u128(a, b),
    );
}

/// The samples are in ascending order.
pub open spec fn ascending(s: Seq<u128>) -> bool {
    forall|i: int, j: int| 0 <= i < j < s.len() ==> s[i] <= s[j]
}

/// Sorts samples in ascending order.
pub fn sort_u128(v: Vec<u128>) -> (r: Vec<u128>)
    ensures
        r@ == sorted_u128s(v@),
        r@.len() == v@.len(),
{
    let mut r: Vec<u128> = Vec::new();
    let mut i: usize = 0;
    while i < v.len()
        invariant
            i <= v.len(),
            ascending(r@),
            r@.to_multiset() == v@.take(i as int).to_multiset(),
        decreases v.len() - i,
    {
        let x = v[i];
        let mut j: usize = 0;
        while j < r.len() && r[j] <= x
            invariant
                i < v.len(),
                x == v@[i as int],
                ascending(r@),
                r@.to_multiset() == v@.take(i as int).to_multiset(),
                j <= r@.len(),
                forall|k: int| 0 <= k < j ==> r@[k] <= x,
            decreases r@.len() - j,
        {
            j = j + 1;
        }
        let ghost old_r = r@;
        r.insert(j, x);
        proof {
            assert(r@ =~= old_r.insert(j as int, x));
            assert forall|a: int, b: int| 0 <= a < b < r@.len() implies r@[a] <= r@[b] by {
                if b < j {
                    assert(r@[a] == old_r[a] && r@[b] == old_r[b]);
                } else if b == j {
                    assert(r@[a] == old_r[a]);
                } else if a < j {
                    assert(r@[a] == old_r[a] && r@[b] == old_r[b - 1]);
                    assert(j < old_r.len() ==> old_r[j as int] > x);
                    assert(old_r[j as int] <= old_r[b - 1] || j as int == b - 1);
                } else if a == j {
                    assert(r@[b] == old_r[b - 1]);
                    assert(old_r[j as int] > x);
                    assert(old_r[j as int] <= old_r[b - 1] || j as int == b - 1);
                } else {
                    assert(r@[a] == old_r[a - 1] && r@[b] == old_r[b - 1]);
                }
            }
            vstd::seq_lib::to_multiset_insert(old_r, j as int, x);
            assert(v@.take(i + 1) =~= v@.take(i as int).push(x));
            vstd::seq_lib::to_multiset_build(v@.take(i as int), x);
        }
        i = i + 1;
    }
    assert(v@.take(v@.len() as int) =~= v@);
    proof {
        assert(sorted_by(r@, |a: u128, b: u128| le_u128(a, b)));
        lemma_sorted_is_sort(v@, r@);
        assert(r@.len() == r@.to_multiset().len());
        assert(v@.len() == v@.to_multiset().len());
    }
    r
}

/// The sum of the samples.
pub open spec fn sum_u128s(s: Seq<u128>) -> int
    decreases s.len(),
{
    if s.len() == 0 {
        0
    } else {
        sum_u128s(s.drop_last()) + s.last()
    }
}

} // verus!
