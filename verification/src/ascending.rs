//! Lists of numbers in ascending order.

use vstd::prelude::*;

verus! {

/// Whether the numbers come in ascending order, none twice.
pub open spec fn ascending(s: Seq<usize>) -> bool {
    forall|i: int, j: int| 0 <= i < j < s.len() ==> s[i] < s[j]
}

/// Whether `s` holds, in ascending order, exactly the numbers below
/// `bound` that `keep` keeps.
pub open spec fn picks(s: Seq<usize>, bound: int, keep: spec_fn(usize) -> bool) -> bool {
    &&& ascending(s)
    &&& forall|i: int| 0 <= i < s.len() ==> s[i] < bound
    &&& forall|p: usize| s.contains(p) <==> (p < bound && keep(p))
}

/// A walk through the numbers from 0 upwards that pushes each number
/// that is kept has picked, after each step, the numbers below the next.
pub proof fn lemma_picks_next(s: Seq<usize>, next: usize, keep: spec_fn(usize) -> bool)
    requires
        picks(s, next as int, keep),
    ensures
        keep(next) ==> picks(s.push(next), next + 1, keep),
        !keep(next) ==> picks(s, next + 1, keep),
{
    if keep(next) {
        let grown = s.push(next);
        assert forall|p: usize| grown.contains(p) <==> (p < next + 1 && keep(p)) by {
            if grown.contains(p) {
                let a = choose|a: int| 0 <= a < grown.len() && grown[a] == p;
                if a < s.len() {
                    assert(s.contains(p));
                }
            }
            if p < next + 1 && keep(p) {
                if p < next {
                    assert(s.contains(p));
                    let a = choose|a: int| 0 <= a < s.len() && s[a] == p;
                    assert(grown[a] == p);
                } else {
                    assert(grown[grown.len() - 1] == p);
                }
            }
        }
    }
}

/// Numbers in ascending order are all different.
pub proof fn lemma_ascending_no_duplicates(s: Seq<usize>)
    requires
        ascending(s),
    ensures
        s.no_duplicates(),
{
    assert forall|i: int, j: int| 0 <= i < s.len() && 0 <= j < s.len() && i != j implies s[i] != s[j] by {
        if i < j {
            assert(s[i] < s[j]);
        } else {
            assert(s[j] < s[i]);
        }
    }
}

/// Puts `k` into a list in ascending order, at its place.
pub fn insert_ascending(list: &mut Vec<usize>, k: usize)
    requires
        ascending(old(list)@),
        !old(list)@.contains(k),
    ensures
        ascending(final(list)@),
        final(list)@.len() == old(list)@.len() + 1,
        forall|p: usize| final(list)@.contains(p) <==> (old(list)@.contains(p) || p == k),
{
    let ghost before = list@;
    let mut at: usize = 0;
    while at < list.len() && list[at] < k
        invariant
            list@ == before,
            at <= before.len(),
            forall|j: int| 0 <= j < at ==> before[j] < k,
        decreases before.len() - at,
    {
        at = at + 1;
    }
    list.insert(at, k);
    proof {
        let after = list@;
        assert(after == before.insert(at as int, k));
        assert forall|j: int| at <= j < before.len() implies before[j] > k by {
            assert(before[at as int] <= before[j]);
            assert(before.contains(before[at as int]));
        }
        assert forall|i: int, j: int| 0 <= i < j < after.len() implies after[i] < after[j] by {
            let fi = if i < at { i } else { i - 1 };
            let fj = if j < at { j } else { j - 1 };
            if i != at && j != at {
                assert(after[i] == before[fi] && after[j] == before[fj]);
            } else if i == at {
                assert(after[j] == before[fj]);
            } else {
                assert(after[i] == before[fi]);
            }
        }
        assert forall|p: usize| after.contains(p) <==> (before.contains(p) || p == k) by {
            if after.contains(p) {
                let a = choose|a: int| 0 <= a < after.len() && after[a] == p;
                if a < at {
                    assert(before[a] == p);
                } else if a > at {
                    assert(before[a - 1] == p);
                }
            }
            if before.contains(p) {
                let a = choose|a: int| 0 <= a < before.len() && before[a] == p;
                if a < at {
                    assert(after[a] == p);
                } else {
                    assert(after[a + 1] == p);
                }
            }
            if p == k {
                assert(after[at as int] == p);
            }
        }
    }
}

} // verus!
