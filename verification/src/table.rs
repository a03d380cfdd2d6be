//! Tables as sequences of rows in insertion order, with ascending keys.

use vstd::prelude::*;
use crate::models::Row;

verus! {

/// Keys grow strictly along the table, so no key occurs twice.
pub open spec fn ascending<T: Row>(rows: Seq<T>) -> bool {
    forall|i: int, j: int|
        0 <= i < j < rows.len() ==> (#[trigger] rows[i]).key() < (#[trigger] rows[j]).key()
}

/// Some row of the table has the key `id`.
pub open spec fn has_key<T: Row>(rows: Seq<T>, id: i32) -> bool {
    exists|i: int| 0 <= i < rows.len() && (#[trigger] rows[i]).key() == id
}

/// Position of a row with the key `id`.
pub open spec fn index_of<T: Row>(rows: Seq<T>, id: i32) -> int {
    choose|i: int| 0 <= i < rows.len() && (#[trigger] rows[i]).key() == id
}

/// The row with the key `id`, where there is one.
pub open spec fn row_of<T: Row>(rows: Seq<T>, id: i32) -> T {
    rows[index_of(rows, id)]
}

/// The key that the next inserted row gets.
pub open spec fn next_key<T: Row>(rows: Seq<T>) -> int {
    if rows.len() == 0 {
        1
    } else {
        rows.last().key() + 1
    }
}

/// Every key of `small` is a key of `big`.
pub open spec fn covers<T: Row>(big: Seq<T>, small: Seq<T>) -> bool {
    forall|id: i32| #[trigger] has_key(small, id) ==> has_key(big, id)
}

/// In a table with ascending keys a key fixes its row.
pub proof fn lemma_key_position<T: Row>(rows: Seq<T>, i: int)
    requires
        ascending(rows),
        0 <= i < rows.len(),
    ensures
        has_key(rows, rows[i].key()),
        index_of(rows, rows[i].key()) == i,
        row_of(rows, rows[i].key()) == rows[i],
{
    let k = index_of(rows, rows[i].key());
    assert(0 <= k < rows.len() && rows[k].key() == rows[i].key());
    if k < i {
        assert(rows[k].key() < rows[i].key());
    } else if i < k {
        assert(rows[i].key() < rows[k].key());
    }
}

/// Appending a row under the next key keeps the keys ascending and all
/// earlier keys in place.
pub proof fn lemma_append<T: Row>(rows: Seq<T>, row: T)
    requires
        ascending(rows),
        row.key() == next_key(rows),
    ensures
        ascending(rows.push(row)),
        has_key(rows.push(row), row.key()),
        !has_key(rows, row.key()),
        covers(rows.push(row), rows),
        forall|id: i32| #[trigger]
            has_key(rows.push(row), id) ==> has_key(rows, id) || id == row.key(),
{
    let grown = rows.push(row);
    assert forall|i: int, j: int| 0 <= i < j < grown.len() implies (#[trigger] grown[i]).key() < (
    #[trigger] grown[j]).key() by {
        if j == rows.len() {
            assert(rows[i].key() <= rows.last().key());
        }
    }
    assert(grown[rows.len() as int].key() == row.key());
    assert forall|id: i32| #[trigger] has_key(rows, id) implies has_key(grown, id) by {
        let i = index_of(rows, id);
        assert(grown[i].key() == id);
    }
    assert forall|id: i32| #[trigger] has_key(grown, id) implies has_key(rows, id) || id
        == row.key() by {
        let i = index_of(grown, id);
        if i < rows.len() {
            assert(rows[i].key() == id);
        }
    }
    if has_key(rows, row.key()) {
        let i = index_of(rows, row.key());
        assert(rows[i].key() <= rows.last().key());
    }
}

/// Looks a row up by its key.
pub fn find<T: Row>(rows: &Vec<T>, id: i32) -> (r: Option<usize>)
    requires
        ascending(rows@),
    ensures
        r is Some <==> has_key(rows@, id),
        r matches Some(i) ==> i < rows.len() && rows[i as int].key() == id && i == index_of(
            rows@,
            id,
        ),
{
    let mut i: usize = 0;
    while i < rows.len()
        invariant
            i <= rows.len(),
            ascending(rows@),
            forall|j: int| 0 <= j < i ==> (#[trigger] rows[j]).key() != id,
        decreases rows.len() - i,
    {
        if rows[i].id() == id {
            proof {
                lemma_key_position(rows@, i as int);
            }
            return Some(i);
        }
        i = i + 1;
    }
    None
}

/// The key for the next row, unless the keys are used up.
pub fn next_id<T: Row>(rows: &Vec<T>) -> (r: Option<i32>)
    ensures
        r is Some <==> next_key(rows@) <= i32::MAX,
        r matches Some(k) ==> k == next_key(rows@),
{
    let n: usize = rows.len();
    if n == 0 {
        Some(1)
    } else {
        let last: i32 = rows[n - 1].id();
        if last == i32::MAX {
            None
        } else {
            Some(last + 1)
        }
    }
}

/// Filtering one more element of a sequence either appends it or changes
/// nothing.
pub proof fn lemma_filter_step<A>(s: Seq<A>, n: int, pred: spec_fn(A) -> bool)
    requires
        0 <= n < s.len(),
    ensures
        s.take(n + 1).filter(pred) == if pred(s[n]) {
            s.take(n).filter(pred).push(s[n])
        } else {
            s.take(n).filter(pred)
        },
{
    reveal(Seq::filter);
    assert(s.take(n + 1).drop_last() =~= s.take(n));
}

/// Filtering nothing gives nothing, and the whole sequence is its own
/// longest prefix.
pub proof fn lemma_filter_ends<A>(s: Seq<A>, pred: spec_fn(A) -> bool)
    ensures
        s.take(0).filter(pred) == Seq::<A>::empty(),
        s.take(s.len() as int) == s,
{
    reveal(Seq::filter);
    assert(s.take(0).filter(pred) =~= Seq::<A>::empty());
    assert(s.take(s.len() as int) =~= s);
}

/// Whether the keys grow strictly along the table.
pub fn is_ascending<T: Row>(rows: &Vec<T>) -> (ok: bool)
    ensures
        ok == ascending(rows@),
{
    let mut i: usize = 1;
    while i < rows.len()
        invariant
            1 <= i,
            forall|a: int, b: int|
                0 <= a < b < i && b < rows@.len() ==> (#[trigger] rows@[a]).key() < (
                #[trigger] rows@[b]).key(),
        decreases rows.len() - i,
    {
        if rows[i - 1].id() >= rows[i].id() {
            assert(!(rows@[i - 1].key() < rows@[i as int].key()));
            return false;
        }
        assert forall|a: int, b: int| 0 <= a < b < i + 1 && b < rows@.len() implies (
        #[trigger] rows@[a]).key() < (#[trigger] rows@[b]).key() by {
            if b == i && a < i - 1 {
                assert(rows@[a].key() < rows@[i - 1].key());
            }
        }
        i = i + 1;
    }
    true
}

} // verus!
