use vstd::prelude::*;

verus! {

broadcast use vstd::seq_lib::group_to_multiset_ensures;

/// Every element is at most each one after it.
pub open spec fn sorted(s: Seq<i64>) -> bool {
    forall|i: int, j: int| 0 <= i < j < s.len() ==> #[trigger] s[i] <= #[trigger] s[j]
}

/// Sorts the samples in place, ascending, and returns the element at index
/// `len / 2` of the sorted sequence: one of the samples, never a mean of two.
///
/// Samples are order keys: a caller holding values of another ordered type
/// maps them to `i64` keys that order as the values do, and the median key
/// back to its value.
pub fn median(weights: &mut Vec<i64>) -> (r: i64)
    requires
        old(weights).len() >= 1,
    ensures
        final(weights)@.to_multiset() == old(weights)@.to_multiset(),
        sorted(final(weights)@),
        r == final(weights)@[final(weights)@.len() as int / 2],
{
    sort(weights);
    let middle = weights.len() / 2;
    weights[middle]
}

/// Insertion sort, ascending.
fn sort(v: &mut Vec<i64>)
    ensures
        final(v)@.len() == old(v)@.len(),
        final(v)@.to_multiset() == old(v)@.to_multiset(),
        sorted(final(v)@),
{
    let n = v.len();
    if n == 0 {
        return;
    }
    let mut i: usize = 1;
    while i < n
        invariant
            1 <= i <= n,
            n == v@.len(),
            v@.to_multiset() == old(v)@.to_multiset(),
            sorted(v@.subrange(0, i as int)),
        decreases n - i,
    {
        let mut j: usize = i;
        proof {
            assert forall|a: int, b: int| 0 <= a < b < i implies #[trigger] v@[a] <= #[trigger] v@[b] by {
                assert(v@.subrange(0, i as int)[a] == v@[a]);
                assert(v@.subrange(0, i as int)[b] == v@[b]);
            }
        }
        while j > 0 && v[j - 1] > v[j]
            invariant
                0 <= j <= i < n,
                n == v@.len(),
                v@.to_multiset() == old(v)@.to_multiset(),
                forall|a: int, b: int|
                    0 <= a < b <= i && a != j && b != j ==> #[trigger] v@[a] <= #[trigger] v@[b],
                forall|b: int| j < b <= i ==> v@[j as int] <= #[trigger] v@[b],
                forall|a: int, b: int| 0 <= a < j < b <= i ==> #[trigger] v@[a] <= #[trigger] v@[b],
            decreases j,
        {
            let a = v[j - 1];
            let b = v[j];
            let ghost s = v@;
            v.set(j - 1, b);
            v.set(j, a);
            proof {
                assert(v@ =~= s.update(j - 1, b).update(j as int, a));
                assert(s.update(j - 1, b).update(j as int, a).to_multiset() =~= s.to_multiset());
            }
            j = j - 1;
        }
        proof {
            assert forall|a: int, b: int| 0 <= a < b < i + 1 implies #[trigger] v@.subrange(0, i + 1)[a]
                <= #[trigger] v@.subrange(0, i + 1)[b] by {
                assert(v@.subrange(0, i + 1)[a] == v@[a]);
                assert(v@.subrange(0, i + 1)[b] == v@[b]);
            }
        }
        i = i + 1;
    }
    proof {
        assert(v@.subrange(0, n as int) =~= v@);
    }
}

} // verus!
