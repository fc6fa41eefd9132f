//! The ownership guard: every lookup, change and removal of a row is
//! filtered by the caller's identity in the same step that performs it, so a
//! row of another identity cannot be told apart from a row that does not exist.

use crate::model::Owned;
use vstd::prelude::*;

verus! {

/// Row `i` has identifier `id` and belongs to `caller`.
pub open spec fn owns<T: Owned>(rows: Seq<T>, i: int, id: u128, caller: u128) -> bool {
    0 <= i < rows.len() && rows[i].spec_id() == id && rows[i].spec_owner() == caller
}

/// The row with identifier `id`, whoever owns it.
pub open spec fn row_with_id<T: Owned>(rows: Seq<T>, id: u128) -> Option<T> {
    if id_taken(rows, id) {
        Some(rows[choose|k: int| 0 <= k < rows.len() && rows[k].spec_id() == id])
    } else {
        None
    }
}

/// In a table with unique identifiers, the row found at `k` is the row with its identifier.
pub proof fn lemma_row_with_id<T: Owned>(rows: Seq<T>, k: int)
    requires
        unique_ids(rows),
        0 <= k < rows.len(),
    ensures
        row_with_id(rows, rows[k].spec_id()) == Some(rows[k]),
{
    let id = rows[k].spec_id();
    assert(id_taken(rows, id));
    let c = choose|c: int| 0 <= c < rows.len() && rows[c].spec_id() == id;
    assert(c == k);
}

/// The caller can see the row with identifier `id`.
pub open spec fn visible<T: Owned>(rows: Seq<T>, id: u128, caller: u128) -> bool {
    exists|i: int| owns(rows, i, id, caller)
}

/// Some row, of any owner, has identifier `id`.
pub open spec fn id_taken<T: Owned>(rows: Seq<T>, id: u128) -> bool {
    exists|i: int| 0 <= i < rows.len() && rows[i].spec_id() == id
}

/// No two rows share an identifier.
pub open spec fn unique_ids<T: Owned>(rows: Seq<T>) -> bool {
    forall|i: int, j: int|
        0 <= i < rows.len() && 0 <= j < rows.len() && i != j ==> rows[i].spec_id()
            != rows[j].spec_id()
}

/// The rows of one identity, in the order in which they are kept.
pub open spec fn owned_by<T: Owned>(rows: Seq<T>, caller: u128) -> Seq<T> {
    rows.filter(owner_is(caller))
}

/// The test that a row belongs to `caller`.
pub open spec fn owner_is<T: Owned>(caller: u128) -> spec_fn(T) -> bool {
    |r: T| r.spec_owner() == caller
}

/// A row that belongs to another identity is, to the caller, exactly as absent
/// as an identifier that no row has: neither is visible.
pub proof fn lemma_foreign_row_is_absent<T: Owned>(
    rows: Seq<T>,
    id: u128,
    caller: u128,
    missing: u128,
)
    requires
        unique_ids(rows),
        exists|i: int| 0 <= i < rows.len() && rows[i].spec_id() == id && rows[i].spec_owner() != caller,
        !id_taken(rows, missing),
    ensures
        !visible(rows, id, caller),
        !visible(rows, missing, caller),
{
    let i = choose|i: int| 0 <= i < rows.len() && rows[i].spec_id() == id && rows[i].spec_owner() != caller;
    assert forall|j: int| !owns(rows, j, id, caller) by {
        if owns(rows, j, id, caller) {
            assert(i == j);
        }
    }
    assert forall|j: int| !owns(rows, j, missing, caller) by {
        if owns(rows, j, missing, caller) {
            assert(rows[j].spec_id() == missing);
        }
    }
}

/// Replacing a row by one with the same identifier keeps identifiers unique.
pub proof fn lemma_unique_after_update<T: Owned>(rows: Seq<T>, i: int, v: T)
    requires
        unique_ids(rows),
        0 <= i < rows.len(),
        v.spec_id() == rows[i].spec_id(),
    ensures
        unique_ids(rows.update(i, v)),
{
    let s = rows.update(i, v);
    assert forall|a: int, b: int| 0 <= a < s.len() && 0 <= b < s.len() && a != b implies s[a].spec_id()
        != s[b].spec_id() by {
        assert(rows[a].spec_id() != rows[b].spec_id());
    }
}

/// Removing a row keeps identifiers unique.
pub proof fn lemma_unique_after_remove<T: Owned>(rows: Seq<T>, i: int)
    requires
        unique_ids(rows),
        0 <= i < rows.len(),
    ensures
        unique_ids(rows.remove(i)),
{
    let s = rows.remove(i);
    assert forall|a: int, b: int| 0 <= a < s.len() && 0 <= b < s.len() && a != b implies s[a].spec_id()
        != s[b].spec_id() by {
        let oa = if a < i { a } else { a + 1 };
        let ob = if b < i { b } else { b + 1 };
        assert(s[a] == rows[oa]);
        assert(s[b] == rows[ob]);
    }
}

/// Adding a row under an identifier that no row has keeps identifiers unique.
pub proof fn lemma_unique_after_push<T: Owned>(rows: Seq<T>, v: T)
    requires
        unique_ids(rows),
        !id_taken(rows, v.spec_id()),
    ensures
        unique_ids(rows.push(v)),
{
    let s = rows.push(v);
    assert forall|a: int, b: int| 0 <= a < s.len() && 0 <= b < s.len() && a != b implies s[a].spec_id()
        != s[b].spec_id() by {
        if a < rows.len() && b < rows.len() {
            assert(rows[a].spec_id() != rows[b].spec_id());
        } else if a < rows.len() {
            assert(s[a] == rows[a]);
        } else {
            assert(s[b] == rows[b]);
        }
    }
}

/// The position of the caller's row with identifier `id`.
pub fn find_owned<T: Owned>(rows: &Vec<T>, id: u128, caller: u128) -> (r: Option<usize>)
    ensures
        r is Some ==> owns(rows@, r.unwrap() as int, id, caller),
        r is None ==> !visible(rows@, id, caller),
{
    let mut i: usize = 0;
    while i < rows.len()
        invariant
            i <= rows@.len(),
            forall|k: int| 0 <= k < i ==> !owns(rows@, k, id, caller),
        decreases rows@.len() - i,
    {
        if rows[i].id_of() == id && rows[i].owner_of() == caller {
            return Some(i);
        }
        i = i + 1;
    }
    None
}

/// The position of the row with identifier `id`, whoever owns it.
pub fn find_id<T: Owned>(rows: &Vec<T>, id: u128) -> (r: Option<usize>)
    ensures
        r is Some ==> r.unwrap() < rows@.len() && rows@[r.unwrap() as int].spec_id() == id,
        r is None ==> !id_taken(rows@, id),
{
    let mut i: usize = 0;
    while i < rows.len()
        invariant
            i <= rows@.len(),
            forall|k: int| 0 <= k < i ==> rows@[k].spec_id() != id,
        decreases rows@.len() - i,
    {
        if rows[i].id_of() == id {
            return Some(i);
        }
        i = i + 1;
    }
    None
}

/// A copy of the caller's row with identifier `id`, if the caller can see one.
pub fn get_owned<T: Owned>(rows: &Vec<T>, id: u128, caller: u128) -> (r: Option<T>)
    ensures
        r is Some <==> visible(rows@, id, caller),
        r is Some ==> exists|i: int| owns(rows@, i, id, caller) && r.unwrap() == rows@[i],
{
    match find_owned(rows, id, caller) {
        Some(i) => Some(rows[i].duplicate()),
        None => None,
    }
}

/// Copies of the caller's rows, in the order in which they are kept.
pub fn list_owned<T: Owned>(rows: &Vec<T>, caller: u128) -> (r: Vec<T>)
    ensures
        r@ == owned_by(rows@, caller),
{
    let mut out: Vec<T> = Vec::new();
    let mut i: usize = 0;
    while i < rows.len()
        invariant
            i <= rows@.len(),
            out@ == owned_by(rows@.subrange(0, i as int), caller),
        decreases rows@.len() - i,
    {
        proof {
            assert(rows@.subrange(0, i + 1) == rows@.subrange(0, i as int).push(rows@[i as int]));
            rows@.subrange(0, i as int).lemma_filter_push(rows@[i as int], owner_is(caller));
        }
        if rows[i].owner_of() == caller {
            out.push(rows[i].duplicate());
        }
        i = i + 1;
    }
    proof {
        assert(rows@.subrange(0, rows@.len() as int) == rows@);
    }
    out
}

/// Removes the caller's row with identifier `id`; reports whether there was one.
pub fn remove_owned<T: Owned>(rows: &mut Vec<T>, id: u128, caller: u128) -> (r: bool)
    ensures
        r == visible(old(rows)@, id, caller),
        r ==> exists|i: int|
            owns(old(rows)@, i, id, caller) && final(rows)@ == old(rows)@.remove(i),
        !r ==> final(rows)@ == old(rows)@,
{
    match find_owned(rows, id, caller) {
        Some(i) => {
            rows.remove(i);
            true
        },
        None => false,
    }
}

} // verus!
