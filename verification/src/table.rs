//! Rows with unique keys, seen as a map from key to row.

use vstd::prelude::*;

verus! {

/// A stored row, split into its key and the rest.
pub trait Record: Sized {
    type Key;

    type Row;

    spec fn key(self) -> Self::Key;

    spec fn row(self) -> Self::Row;
}

/// No two rows have the same key.
pub open spec fn distinct<R: Record>(rows: Seq<R>) -> bool {
    forall|i: int, j: int|
        0 <= i < j < rows.len() ==> (#[trigger] rows[i]).key() != (#[trigger] rows[j]).key()
}

/// The rows by key.
pub open spec fn table<R: Record>(rows: Seq<R>) -> Map<R::Key, R::Row>
    decreases rows.len(),
{
    if rows.len() == 0 {
        Map::empty()
    } else {
        table(rows.drop_last()).insert(rows.last().key(), rows.last().row())
    }
}

/// `rows` hold a row with key `k`.
pub open spec fn holds<R: Record>(rows: Seq<R>, k: R::Key) -> bool {
    exists|i: int| 0 <= i < rows.len() && (#[trigger] rows[i]).key() == k
}

/// The rows of `before` stand first in `after`, in their places, and may have
/// changed in all but their keys.
pub open spec fn continues<R: Record>(after: Seq<R>, before: Seq<R>) -> bool {
    &&& before.len() <= after.len()
    &&& forall|i: int| 0 <= i < before.len() ==> (#[trigger] after[i]).key() == before[i].key()
}

pub proof fn lemma_table_domain<R: Record>(rows: Seq<R>)
    ensures
        table(rows).dom().finite(),
        forall|k: R::Key| #[trigger] table(rows).dom().contains(k) <==> holds(rows, k),
    decreases rows.len(),
{
    if rows.len() > 0 {
        let rest = rows.drop_last();
        lemma_table_domain(rest);
        assert forall|k: R::Key| #[trigger] table(rows).dom().contains(k) <==> holds(rows, k) by {
            if holds(rows, k) {
                let i = choose|i: int| 0 <= i < rows.len() && (#[trigger] rows[i]).key() == k;
                if i < rest.len() {
                    assert(rest[i].key() == k);
                    assert(holds(rest, k));
                }
                assert(table(rest).dom().contains(k) || rows.last().key() == k);
            }
            if table(rows).dom().contains(k) {
                if rows.last().key() == k {
                    assert(rows[rows.len() - 1].key() == k);
                } else {
                    assert(table(rest).dom().contains(k));
                    let i = choose|i: int| 0 <= i < rest.len() && (#[trigger] rest[i]).key() == k;
                    assert(rows[i].key() == k);
                }
            }
        }
    }
}

pub proof fn lemma_table_index<R: Record>(rows: Seq<R>, i: int)
    requires
        distinct(rows),
        0 <= i < rows.len(),
    ensures
        table(rows).dom().contains(rows[i].key()),
        table(rows)[rows[i].key()] == rows[i].row(),
    decreases rows.len(),
{
    if i < rows.len() - 1 {
        let rest = rows.drop_last();
        assert(distinct(rest)) by {
            assert forall|a: int, b: int| 0 <= a < b < rest.len() implies (#[trigger] rest[a]).key() != (
            #[trigger] rest[b]).key() by {
                assert(rows[a].key() != rows[b].key());
            }
        }
        lemma_table_index(rest, i);
        assert(rows[i].key() != rows[rows.len() - 1].key());
    }
}

pub proof fn lemma_table_push<R: Record>(rows: Seq<R>, r: R)
    requires
        distinct(rows),
        !table(rows).dom().contains(r.key()),
    ensures
        distinct(rows.push(r)),
        table(rows.push(r)) == table(rows).insert(r.key(), r.row()),
{
    lemma_table_domain(rows);
    let more = rows.push(r);
    assert(more.drop_last() =~= rows);
    assert forall|a: int, b: int| 0 <= a < b < more.len() implies (#[trigger] more[a]).key() != (
    #[trigger] more[b]).key() by {
        if b < rows.len() {
            assert(rows[a].key() != rows[b].key());
        } else {
            assert(!holds(rows, r.key()));
            assert(rows[a].key() != r.key());
        }
    }
}

/// Changing rows but not their keys keeps the keys.
pub proof fn lemma_table_rewrite<R: Record>(rows: Seq<R>, after: Seq<R>)
    requires
        distinct(rows),
        after.len() == rows.len(),
        forall|i: int| 0 <= i < rows.len() ==> (#[trigger] after[i]).key() == rows[i].key(),
    ensures
        distinct(after),
        table(after).dom() == table(rows).dom(),
{
    lemma_table_domain(rows);
    lemma_table_domain(after);
    assert forall|a: int, b: int| 0 <= a < b < after.len() implies (#[trigger] after[a]).key() != (
    #[trigger] after[b]).key() by {
        assert(rows[a].key() != rows[b].key());
    }
    assert forall|k: R::Key| holds(rows, k) == holds(after, k) by {
        if holds(rows, k) {
            let i = choose|i: int| 0 <= i < rows.len() && (#[trigger] rows[i]).key() == k;
            assert(after[i].key() == k);
        }
        if holds(after, k) {
            let i = choose|i: int| 0 <= i < after.len() && (#[trigger] after[i]).key() == k;
            assert(rows[i].key() == k);
        }
    }
    assert(table(after).dom() =~= table(rows).dom());
}

pub proof fn lemma_table_update<R: Record>(rows: Seq<R>, i: int, r: R)
    requires
        distinct(rows),
        0 <= i < rows.len(),
        r.key() == rows[i].key(),
    ensures
        distinct(rows.update(i, r)),
        table(rows.update(i, r)) == table(rows).insert(r.key(), r.row()),
{
    let after = rows.update(i, r);
    lemma_table_rewrite(rows, after);
    lemma_table_index(rows, i);
    lemma_table_domain(rows);
    let left = table(after);
    let right = table(rows).insert(r.key(), r.row());
    assert(left.dom() =~= right.dom());
    assert forall|k: R::Key| left.dom().contains(k) implies left[k] == right[k] by {
        assert(holds(rows, k));
        let j = choose|j: int| 0 <= j < rows.len() && (#[trigger] rows[j]).key() == k;
        lemma_table_index(rows, j);
        lemma_table_index(after, j);
        if j != i {
            if j < i {
                assert(rows[j].key() != rows[i].key());
            } else {
                assert(rows[i].key() != rows[j].key());
            }
        }
    }
    assert(left =~= right);
}

pub proof fn lemma_table_remove<R: Record>(rows: Seq<R>, i: int)
    requires
        distinct(rows),
        0 <= i < rows.len(),
    ensures
        distinct(rows.remove(i)),
        table(rows.remove(i)) == table(rows).remove(rows[i].key()),
{
    let after = rows.remove(i);
    lemma_table_domain(rows);
    lemma_table_domain(after);
    assert forall|a: int, b: int| 0 <= a < b < after.len() implies (#[trigger] after[a]).key() != (
    #[trigger] after[b]).key() by {
        let a0 = if a < i { a } else { a + 1 };
        let b0 = if b < i { b } else { b + 1 };
        assert(rows[a0].key() != rows[b0].key());
    }
    let left = table(after);
    let right = table(rows).remove(rows[i].key());
    assert forall|k: R::Key| left.dom().contains(k) == right.dom().contains(k) by {
        if holds(after, k) {
            let a = choose|a: int| 0 <= a < after.len() && (#[trigger] after[a]).key() == k;
            let a0 = if a < i { a } else { a + 1 };
            assert(rows[a0].key() == k);
            if a0 < i {
                assert(rows[a0].key() != rows[i].key());
            } else {
                assert(rows[i].key() != rows[a0].key());
            }
        }
        if right.dom().contains(k) {
            assert(holds(rows, k));
            let a0 = choose|a0: int| 0 <= a0 < rows.len() && (#[trigger] rows[a0]).key() == k;
            let a = if a0 < i { a0 } else { a0 - 1 };
            assert(after[a].key() == k);
        }
    }
    assert(left.dom() =~= right.dom());
    assert forall|k: R::Key| left.dom().contains(k) implies left[k] == right[k] by {
        assert(holds(after, k));
        let a = choose|a: int| 0 <= a < after.len() && (#[trigger] after[a]).key() == k;
        let a0 = if a < i { a } else { a + 1 };
        lemma_table_index(after, a);
        lemma_table_index(rows, a0);
    }
    assert(left =~= right);
}

/// Changing each row in the same way changes the map in that way.
pub proof fn lemma_table_pointwise<R: Record>(
    rows: Seq<R>,
    after: Seq<R>,
    change: spec_fn(R::Row) -> R::Row,
)
    requires
        distinct(rows),
        after.len() == rows.len(),
        forall|i: int|
            0 <= i < rows.len() ==> {
                &&& (#[trigger] after[i]).key() == rows[i].key()
                &&& after[i].row() == change(rows[i].row())
            },
    ensures
        distinct(after),
        table(after) == Map::new(
            |k: R::Key| table(rows).dom().contains(k),
            |k: R::Key| change(table(rows)[k]),
        ),
{
    lemma_table_rewrite(rows, after);
    lemma_table_domain(rows);
    let right = Map::new(
        |k: R::Key| table(rows).dom().contains(k),
        |k: R::Key| change(table(rows)[k]),
    );
    assert forall|k: R::Key| table(rows).dom().contains(k) implies table(after)[k]
        == #[trigger] right[k] by {
        let j = choose|j: int| 0 <= j < rows.len() && (#[trigger] rows[j]).key() == k;
        lemma_table_index(rows, j);
        lemma_table_index(after, j);
    }
    assert(table(after) =~= right);
}

} // verus!
