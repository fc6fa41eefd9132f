//! Ordering rows by an integer rank, highest first.

use vstd::prelude::*;
use vstd::multiset::Multiset;
use vstd::seq_lib::group_to_multiset_ensures;

verus! {

/// A row with an integer rank to order by.
pub trait Ranked {
    spec fn rank(&self) -> int;

    fn rank_of(&self) -> (r: i64)
        ensures
            r == self.rank(),
    ;
}

/// No row comes after one of lower rank.
pub open spec fn ranked_desc<T: Ranked>(s: Seq<T>) -> bool {
    forall|i: int, j: int| 0 <= i < j < s.len() ==> s[i].rank() >= s[j].rank()
}

/// The position of a row of highest rank.
fn highest<T: Ranked>(v: &Vec<T>) -> (r: usize)
    requires
        v@.len() > 0,
    ensures
        r < v@.len(),
        forall|j: int| 0 <= j < v@.len() ==> v@[r as int].rank() >= v@[j].rank(),
{
    let mut best: usize = 0;
    let mut i: usize = 1;
    while i < v.len()
        invariant
            1 <= i <= v@.len(),
            best < i,
            forall|j: int| 0 <= j < i ==> v@[best as int].rank() >= v@[j].rank(),
        decreases v@.len() - i,
    {
        if v[i].rank_of() > v[best].rank_of() {
            best = i;
        }
        i = i + 1;
    }
    best
}

/// The same rows, highest rank first.
pub fn sort_by_rank_desc<T: Ranked>(v: Vec<T>) -> (r: Vec<T>)
    ensures
        r@.to_multiset() == v@.to_multiset(),
        ranked_desc(r@),
{
    broadcast use group_to_multiset_ensures;

    let ghost all = v@;
    let mut rest = v;
    let mut out: Vec<T> = Vec::new();
    proof {
        assert(out@.to_multiset() =~= Multiset::empty());
        assert(out@.to_multiset().add(rest@.to_multiset()) =~= all.to_multiset());
    }
    while rest.len() > 0
        invariant
            out@.to_multiset().add(rest@.to_multiset()) == all.to_multiset(),
            ranked_desc(out@),
            forall|i: int, j: int|
                0 <= i < out@.len() && 0 <= j < rest@.len() ==> out@[i].rank() >= rest@[j].rank(),
        decreases rest@.len(),
    {
        let m = highest(&rest);
        let ghost before = rest@;
        let ghost out_before = out@;
        let x = rest.remove(m);
        proof {
            assert(rest@ == before.remove(m as int));
            before.to_multiset_ensures();
            before.remove_ensures(m as int);
        }
        out.push(x);
        proof {
            assert(out@ == out_before.push(x));
            out_before.to_multiset_ensures();
            assert(out@.to_multiset() =~= out_before.to_multiset().insert(x));
            assert(before.to_multiset().count(x) > 0) by {
                assert(before.contains(x));
            }
            assert(out@.to_multiset().add(rest@.to_multiset()) =~= all.to_multiset());
            assert forall|i: int, j: int| 0 <= i < j < out@.len() implies out@[i].rank() >= out@[j].rank() by {
                if j == out@.len() - 1 {
                    assert(out_before[i].rank() >= before[m as int].rank());
                }
            }
            assert forall|i: int, j: int|
                0 <= i < out@.len() && 0 <= j < rest@.len() implies out@[i].rank() >= rest@[j].rank() by {
                let oj = if j < m { j } else { j + 1 };
                assert(rest@[j] == before[oj]);
            }
        }
    }
    proof {
        assert(rest@.to_multiset() =~= Multiset::empty());
        assert(out@.to_multiset() =~= all.to_multiset());
    }
    out
}

} // verus!
