//! Association lists: the maps of the transforms, keyed by names and identifiers, with the
//! order in which their keys came.
use vstd::prelude::*;

use crate::text::eq_str;

verus! {

/// The first position of key `k` in `m`, or -1.
pub open spec fn key_index<V>(m: Seq<(Seq<char>, V)>, k: Seq<char>) -> int
    decreases m.len(),
{
    if m.len() == 0 {
        -1
    } else if key_index(m.drop_last(), k) >= 0 {
        key_index(m.drop_last(), k)
    } else if m.last().0 == k {
        m.len() - 1
    } else {
        -1
    }
}

/// `m` with key `k` bound to `v`: its entry replaced where it has one, else added last.
pub open spec fn assoc_insert<V>(m: Seq<(Seq<char>, V)>, k: Seq<char>, v: V) -> Seq<(Seq<char>, V)> {
    let i = key_index(m, k);
    if i >= 0 {
        m.update(i, (k, v))
    } else {
        m.push((k, v))
    }
}

/// What key `k` is bound to in `m`.
pub open spec fn assoc_get<V>(m: Seq<(Seq<char>, V)>, k: Seq<char>) -> Option<V> {
    let i = key_index(m, k);
    if i >= 0 {
        Some(m[i].1)
    } else {
        None
    }
}

pub proof fn lemma_key_index_bounds<V>(m: Seq<(Seq<char>, V)>, k: Seq<char>)
    ensures
        -1 <= key_index(m, k) < m.len(),
        key_index(m, k) >= 0 ==> m[key_index(m, k)].0 == k,
        key_index(m, k) == -1 ==> forall|j: int| 0 <= j < m.len() ==> #[trigger] m[j].0 != k,
    decreases m.len(),
{
    if m.len() > 0 {
        lemma_key_index_bounds(m.drop_last(), k);
        if key_index(m.drop_last(), k) == -1 {
            assert forall|j: int| 0 <= j < m.len() - 1 implies #[trigger] m[j].0 != k by {
                assert(m.drop_last()[j] == m[j]);
            }
        }
    }
}

/// The first position of key `k` among the keys `m`.
pub fn find_key<V>(m: &Vec<(String, V)>, k: &str) -> (r: Option<usize>)
    ensures
        match r {
            Some(i) => i < m@.len() && m@[i as int].0@ == k@ && forall|j: int| 0 <= j < i ==> #[trigger] m@[j].0@ != k@,
            None => forall|j: int| 0 <= j < m@.len() ==> #[trigger] m@[j].0@ != k@,
        },
{
    let mut i: usize = 0;
    while i < m.len()
        invariant
            i <= m@.len(),
            forall|j: int| 0 <= j < i ==> #[trigger] m@[j].0@ != k@,
        decreases m@.len() - i,
    {
        if eq_str(m[i].0.as_str(), k) {
            return Some(i);
        }
        i += 1;
    }
    None
}

/// Where the keys of `m` are those of `s` in order, a first position of a key is the same in
/// both.
pub proof fn lemma_key_index_first<V>(m: Seq<(Seq<char>, V)>, k: Seq<char>, i: int)
    requires
        0 <= i < m.len(),
        m[i].0 == k,
        forall|j: int| 0 <= j < i ==> #[trigger] m[j].0 != k,
    ensures
        key_index(m, k) == i,
    decreases m.len(),
{
    if i < m.len() - 1 {
        lemma_key_index_first(m.drop_last(), k, i);
    } else {
        lemma_key_index_bounds(m.drop_last(), k);
        if key_index(m.drop_last(), k) >= 0 {
            assert(m.drop_last()[key_index(m.drop_last(), k)] == m[key_index(m.drop_last(), k)]);
        }
    }
}

pub proof fn lemma_key_index_none<V>(m: Seq<(Seq<char>, V)>, k: Seq<char>)
    requires
        forall|j: int| 0 <= j < m.len() ==> #[trigger] m[j].0 != k,
    ensures
        key_index(m, k) == -1,
    decreases m.len(),
{
    if m.len() > 0 {
        assert forall|j: int| 0 <= j < m.len() - 1 implies #[trigger] m.drop_last()[j].0 != k by {
            assert(m.drop_last()[j] == m[j]);
        }
        lemma_key_index_none(m.drop_last(), k);
        assert(m[m.len() - 1].0 != k);
    }
}

} // verus!
