//! Insert-or-ignore over a table with a unique key: the write discipline that
//! makes every write of the index safe to replay.
use vstd::prelude::*;

verus! {

/// Whether some row of `rows` has key `k`.
pub open spec fn has_key<R, K>(rows: Seq<R>, key: spec_fn(R) -> K, k: K) -> bool {
    exists|i: int| 0 <= i < rows.len() && key(#[trigger] rows[i]) == k
}

/// No two rows share a key.
pub open spec fn keys_unique<R, K>(rows: Seq<R>, key: spec_fn(R) -> K) -> bool {
    forall|i: int, j: int| 0 <= i < j < rows.len() ==> key(#[trigger] rows[i]) != key(#[trigger] rows[j])
}

/// One row inserted unless its key is already taken.
pub open spec fn insert_one<R, K>(rows: Seq<R>, row: R, key: spec_fn(R) -> K) -> Seq<R> {
    if has_key(rows, key, key(row)) {
        rows
    } else {
        rows.push(row)
    }
}

/// Rows inserted in order, each unless its key is already taken.
pub open spec fn insert_or_ignore<R, K>(rows: Seq<R>, new: Seq<R>, key: spec_fn(R) -> K) -> Seq<R>
    decreases new.len(),
{
    if new.len() == 0 {
        rows
    } else {
        insert_one(insert_or_ignore(rows, new.drop_last(), key), new.last(), key)
    }
}

pub proof fn lemma_insert_one<R, K>(rows: Seq<R>, row: R, key: spec_fn(R) -> K)
    ensures
        forall|k: K| has_key(insert_one(rows, row, key), key, k) <==> (has_key(rows, key, k) || k == key(row)),
        insert_one(rows, row, key).len() >= rows.len(),
        insert_one(rows, row, key).subrange(0, rows.len() as int) == rows,
        keys_unique(rows, key) ==> keys_unique(insert_one(rows, row, key), key),
{
    let out = insert_one(rows, row, key);
    assert forall|k: K| has_key(out, key, k) <==> (has_key(rows, key, k) || k == key(row)) by {
        if has_key(rows, key, k) {
            let i = choose|i: int| 0 <= i < rows.len() && key(#[trigger] rows[i]) == k;
            assert(out[i] == rows[i]);
        }
        if k == key(row) && !has_key(rows, key, k) {
            assert(out[rows.len() as int] == row);
        }
        if has_key(out, key, k) && k != key(row) {
            let i = choose|i: int| 0 <= i < out.len() && key(#[trigger] out[i]) == k;
            if i < rows.len() {
                assert(rows[i] == out[i]);
            }
        }
    }
    assert(out.subrange(0, rows.len() as int) =~= rows);
    if keys_unique(rows, key) && !has_key(rows, key, key(row)) {
        assert forall|i: int, j: int| 0 <= i < j < out.len() implies key(#[trigger] out[i]) != key(#[trigger] out[j]) by {
            if j == rows.len() {
                assert(out[i] == rows[i]);
            } else {
                assert(out[i] == rows[i]);
                assert(out[j] == rows[j]);
            }
        }
    }
}

pub proof fn lemma_insert_or_ignore<R, K>(rows: Seq<R>, new: Seq<R>, key: spec_fn(R) -> K)
    ensures
        forall|k: K| has_key(insert_or_ignore(rows, new, key), key, k) <==> (has_key(rows, key, k) || has_key(new, key, k)),
        insert_or_ignore(rows, new, key).len() >= rows.len(),
        insert_or_ignore(rows, new, key).subrange(0, rows.len() as int) == rows,
        keys_unique(rows, key) ==> keys_unique(insert_or_ignore(rows, new, key), key),
    decreases new.len(),
{
    if new.len() > 0 {
        let prev = insert_or_ignore(rows, new.drop_last(), key);
        lemma_insert_or_ignore(rows, new.drop_last(), key);
        lemma_insert_one(prev, new.last(), key);
        assert forall|k: K| has_key(new, key, k) <==> (has_key(new.drop_last(), key, k) || k == key(new.last())) by {
            if has_key(new.drop_last(), key, k) {
                let i = choose|i: int| 0 <= i < new.drop_last().len() && key(#[trigger] new.drop_last()[i]) == k;
                assert(new[i] == new.drop_last()[i]);
            }
            if k == key(new.last()) {
                assert(new[new.len() - 1] == new.last());
            }
            if has_key(new, key, k) && k != key(new.last()) {
                let i = choose|i: int| 0 <= i < new.len() && key(#[trigger] new[i]) == k;
                assert(new.drop_last()[i] == new[i]);
            }
        }
        let out = insert_one(prev, new.last(), key);
        assert(out.subrange(0, rows.len() as int) =~= prev.subrange(0, rows.len() as int)) by {
            assert(out.subrange(0, prev.len() as int) == prev);
            assert forall|i: int| 0 <= i < rows.len() implies out[i] == prev[i] by {
                assert(out.subrange(0, prev.len() as int)[i] == out[i]);
            }
        }
    }
}

/// Inserting rows whose keys are all taken changes nothing.
pub proof fn lemma_insert_or_ignore_present<R, K>(rows: Seq<R>, new: Seq<R>, key: spec_fn(R) -> K)
    requires
        forall|i: int| 0 <= i < new.len() ==> has_key(rows, key, key(#[trigger] new[i])),
    ensures
        insert_or_ignore(rows, new, key) == rows,
    decreases new.len(),
{
    if new.len() > 0 {
        assert forall|i: int| 0 <= i < new.drop_last().len() implies has_key(rows, key, key(#[trigger] new.drop_last()[i])) by {
            assert(new.drop_last()[i] == new[i]);
        }
        lemma_insert_or_ignore_present(rows, new.drop_last(), key);
        assert(has_key(rows, key, key(new[new.len() - 1])));
    }
}

/// Replaying an insert-or-ignore leaves the table as the first run left it.
pub proof fn lemma_insert_or_ignore_idempotent<R, K>(rows: Seq<R>, new: Seq<R>, key: spec_fn(R) -> K)
    ensures
        insert_or_ignore(insert_or_ignore(rows, new, key), new, key) == insert_or_ignore(rows, new, key),
{
    let once = insert_or_ignore(rows, new, key);
    lemma_insert_or_ignore(rows, new, key);
    assert forall|i: int| 0 <= i < new.len() implies has_key(once, key, key(#[trigger] new[i])) by {
        assert(has_key(new, key, key(new[i])));
    }
    lemma_insert_or_ignore_present(once, new, key);
}

/// Inserting two batches one after the other is inserting their concatenation.
pub proof fn lemma_insert_or_ignore_concat<R, K>(rows: Seq<R>, a: Seq<R>, b: Seq<R>, key: spec_fn(R) -> K)
    ensures
        insert_or_ignore(insert_or_ignore(rows, a, key), b, key) == insert_or_ignore(rows, a + b, key),
    decreases b.len(),
{
    if b.len() == 0 {
        assert(a + b == a);
    } else {
        lemma_insert_or_ignore_concat(rows, a, b.drop_last(), key);
        assert((a + b).drop_last() == a + b.drop_last());
        assert((a + b).last() == b.last());
    }
}

} // verus!
