//! Ordering text by its characters, and labels by their names.

use crate::model::Label;
use vstd::multiset::Multiset;
use vstd::prelude::*;
use vstd::string::StrSliceExecFns;

verus! {

/// `a` comes no later than `b` in the order of character codes, a text
/// coming before every longer text that it begins.
pub open spec fn text_le(a: Seq<char>, b: Seq<char>) -> bool
    decreases a.len(),
{
    if a.len() == 0 {
        true
    } else if b.len() == 0 {
        false
    } else if a[0] == b[0] {
        text_le(a.drop_first(), b.drop_first())
    } else {
        (a[0] as u32) < (b[0] as u32)
    }
}

/// Of two texts, one comes no later than the other.
pub proof fn lemma_text_le_total(a: Seq<char>, b: Seq<char>)
    ensures
        text_le(a, b) || text_le(b, a),
    decreases a.len(),
{
    if a.len() > 0 && b.len() > 0 && a[0] == b[0] {
        lemma_text_le_total(a.drop_first(), b.drop_first());
    } else if a.len() > 0 && b.len() > 0 {
        vstd::utf8::char_u32_cast(a[0], a[0] as u32);
        vstd::utf8::char_u32_cast(b[0], b[0] as u32);
    }
}

/// The order of texts is transitive.
pub proof fn lemma_text_le_transitive(a: Seq<char>, b: Seq<char>, c: Seq<char>)
    requires
        text_le(a, b),
        text_le(b, c),
    ensures
        text_le(a, c),
    decreases a.len(),
{
    if a.len() > 0 && b.len() > 0 && c.len() > 0 && a[0] == b[0] && b[0] == c[0] {
        lemma_text_le_transitive(a.drop_first(), b.drop_first(), c.drop_first());
    }
}

/// Whether `a` comes no later than `b`.
pub fn text_le_exec(a: &str, b: &str) -> (r: bool)
    ensures
        r == text_le(a@, b@),
{
    let la = a.unicode_len();
    let lb = b.unicode_len();
    let mut i: usize = 0;
    proof {
        assert(a@.subrange(0, la as int) == a@);
        assert(b@.subrange(0, lb as int) == b@);
    }
    while i < la && i < lb
        invariant
            la == a@.len(),
            lb == b@.len(),
            i <= la,
            i <= lb,
            text_le(a@, b@) == text_le(a@.subrange(i as int, la as int), b@.subrange(i as int, lb as int)),
        decreases la - i,
    {
        let ca = a.get_char(i);
        let cb = b.get_char(i);
        let ghost sa = a@.subrange(i as int, la as int);
        let ghost sb = b@.subrange(i as int, lb as int);
        proof {
            assert(sa[0] == ca);
            assert(sb[0] == cb);
            assert(sa.drop_first() == a@.subrange(i + 1, la as int));
            assert(sb.drop_first() == b@.subrange(i + 1, lb as int));
        }
        if ca != cb {
            return (ca as u32) < (cb as u32);
        }
        i = i + 1;
    }
    proof {
        assert(a@.subrange(i as int, la as int).len() == 0 || b@.subrange(i as int, lb as int).len() == 0);
    }
    i == la
}

/// No label comes after one whose name comes earlier.
pub open spec fn sorted_by_name(s: Seq<Label>) -> bool {
    forall|i: int, j: int| 0 <= i < j < s.len() ==> text_le(s[i].name@, s[j].name@)
}

/// The position of a label whose name comes first.
fn first_by_name(v: &Vec<Label>) -> (r: usize)
    requires
        v@.len() > 0,
    ensures
        r < v@.len(),
        forall|j: int| 0 <= j < v@.len() ==> text_le(v@[r as int].name@, v@[j].name@),
{
    let mut best: usize = 0;
    let mut i: usize = 1;
    proof {
        lemma_text_le_total(v@[0].name@, v@[0].name@);
    }
    while i < v.len()
        invariant
            1 <= i <= v@.len(),
            best < i,
            forall|j: int| 0 <= j < i ==> text_le(v@[best as int].name@, v@[j].name@),
        decreases v@.len() - i,
    {
        if !text_le_exec(v[best].name.as_str(), v[i].name.as_str()) {
            proof {
                lemma_text_le_total(v@[best as int].name@, v@[i as int].name@);
                assert forall|j: int| 0 <= j < i + 1 implies text_le(v@[i as int].name@, v@[j].name@) by {
                    if j < i {
                        lemma_text_le_transitive(v@[i as int].name@, v@[best as int].name@, v@[j].name@);
                    } else {
                        lemma_text_le_total(v@[j].name@, v@[j].name@);
                    }
                }
            }
            best = i;
        }
        i = i + 1;
    }
    best
}

/// The same labels, ordered by name.
pub fn sort_by_name(v: Vec<Label>) -> (r: Vec<Label>)
    ensures
        r@.to_multiset() == v@.to_multiset(),
        sorted_by_name(r@),
{
    let ghost all = v@;
    let mut rest = v;
    let mut out: Vec<Label> = Vec::new();
    proof {
        out@.to_multiset_ensures();
        assert(out@.to_multiset() =~= Multiset::empty());
        assert(out@.to_multiset().add(rest@.to_multiset()) =~= all.to_multiset());
    }
    while rest.len() > 0
        invariant
            out@.to_multiset().add(rest@.to_multiset()) == all.to_multiset(),
            sorted_by_name(out@),
            forall|i: int, j: int|
                0 <= i < out@.len() && 0 <= j < rest@.len() ==> text_le(out@[i].name@, rest@[j].name@),
        decreases rest@.len(),
    {
        let m = first_by_name(&rest);
        let ghost before = rest@;
        let ghost out_before = out@;
        let x = rest.remove(m);
        proof {
            before.to_multiset_ensures();
            before.remove_ensures(m as int);
        }
        out.push(x);
        proof {
            out_before.to_multiset_ensures();
            assert(out@ == out_before.push(x));
            assert(out@.to_multiset() =~= out_before.to_multiset().insert(x));
            assert(before.to_multiset().count(x) > 0) by {
                assert(before.contains(x));
            }
            assert(out@.to_multiset().add(rest@.to_multiset()) =~= all.to_multiset());
            assert forall|i: int, j: int| 0 <= i < j < out@.len() implies text_le(out@[i].name@, out@[j].name@) by {
                if j == out@.len() - 1 {
                    assert(text_le(out_before[i].name@, before[m as int].name@));
                }
            }
            assert forall|i: int, j: int|
                0 <= i < out@.len() && 0 <= j < rest@.len() implies text_le(out@[i].name@, rest@[j].name@) by {
                let oj = if j < m { j } else { j + 1 };
                assert(rest@[j] == before[oj]);
            }
        }
    }
    proof {
        rest@.to_multiset_ensures();
        assert(rest@.to_multiset() =~= Multiset::empty());
        assert(out@.to_multiset() =~= all.to_multiset());
    }
    out
}

} // verus!
