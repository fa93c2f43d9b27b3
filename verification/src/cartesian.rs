//! Cartesian products, as used to pair up the categories that convert into each other.
use vstd::prelude::*;

verus! {

/// All pairs of an item of `a` with an item of `b`, ordered by `a` first.
pub open spec fn spec_cartesian(a: Seq<i64>, b: Seq<i64>) -> Seq<(i64, i64)> {
    Seq::new(a.len() * b.len(), |k: int| (a[k / b.len() as int], b[k % b.len() as int]))
}

/// All pairs of an item of `a` with an item of `b`, ordered by `a` first.
pub fn cartesian_product(a: &[i64], b: &[i64]) -> (r: Vec<(i64, i64)>)
    requires
        a@.len() * b@.len() <= usize::MAX,
    ensures
        r@ == spec_cartesian(a@, b@),
{
    let mut r: Vec<(i64, i64)> = Vec::new();
    let mut i: usize = 0;
    while i < a.len()
        invariant
            i <= a@.len(),
            a@.len() * b@.len() <= usize::MAX,
            r@.len() == i * b@.len(),
            forall|k: int| 0 <= k < r@.len() ==> #[trigger] r@[k] == (a@[k / b@.len() as int], b@[k % b@.len() as int]),
        decreases a@.len() - i,
    {
        let mut j: usize = 0;
        while j < b.len()
            invariant
                i < a@.len(),
                j <= b@.len(),
                r@.len() == i * b@.len() + j,
                forall|k: int| 0 <= k < r@.len() ==> #[trigger] r@[k] == (a@[k / b@.len() as int], b@[k % b@.len() as int]),
            decreases b@.len() - j,
        {
            proof {
                let k = i * b@.len() + j;
                assert(k / b@.len() as int == i && k % b@.len() as int == j) by (nonlinear_arith)
                    requires
                        k == i * b@.len() + j,
                        0 <= j < b@.len(),
                        0 <= i,
                ;
            }
            r.push((a[i], b[j]));
            j += 1;
        }
        proof {
            assert(i * b@.len() + b@.len() == (i + 1) * b@.len()) by (nonlinear_arith);
        }
        i += 1;
    }
    assert(r@ =~= spec_cartesian(a@, b@));
    r
}

} // verus!
