//! Facts about tables as sequences of rows: looking a key up, and what a
//! selection of rows keeps.

use vstd::prelude::*;

verus! {

/// The value of the first pair with the key, if there is one.
pub open spec fn lookup<K, V>(pairs: Seq<(K, V)>, key: K) -> Option<V>
    decreases pairs.len(),
{
    if pairs.len() == 0 {
        None
    } else if pairs[0].0 == key {
        Some(pairs[0].1)
    } else {
        lookup(pairs.drop_first(), key)
    }
}

/// A key is found exactly if some pair has it, and what is found stands in the
/// table under that key.
pub proof fn lemma_lookup<K, V>(pairs: Seq<(K, V)>, key: K)
    ensures
        lookup(pairs, key) is Some <==> exists|i: int|
            0 <= i < pairs.len() && (#[trigger] pairs[i]).0 == key,
        lookup(pairs, key) matches Some(v) ==> pairs.contains((key, v)),
    decreases pairs.len(),
{
    if pairs.len() > 0 {
        let rest = pairs.drop_first();
        lemma_lookup(rest, key);
        if pairs[0].0 == key {
            assert(pairs[0] == (key, pairs[0].1));
        } else {
            if lookup(rest, key) is Some {
                let i = choose|i: int| 0 <= i < rest.len() && (#[trigger] rest[i]).0 == key;
                assert(pairs[i + 1] == rest[i]);
                let v = lookup(rest, key)->0;
                let j = choose|j: int| 0 <= j < rest.len() && rest[j] == (key, v);
                assert(pairs[j + 1] == (key, v));
            }
            if exists|i: int| 0 <= i < pairs.len() && (#[trigger] pairs[i]).0 == key {
                let i = choose|i: int| 0 <= i < pairs.len() && (#[trigger] pairs[i]).0 == key;
                assert(rest[i - 1] == pairs[i]);
            }
        }
    }
}

/// The first pair with the key is the one that is found.
pub proof fn lemma_lookup_first<K, V>(pairs: Seq<(K, V)>, key: K, i: int)
    requires
        0 <= i < pairs.len(),
        pairs[i].0 == key,
        forall|k: int| 0 <= k < i ==> (#[trigger] pairs[k]).0 != key,
    ensures
        lookup(pairs, key) == Some(pairs[i].1),
    decreases pairs.len(),
{
    if i > 0 {
        let rest = pairs.drop_first();
        assert(pairs[0].0 != key);
        assert(rest[i - 1] == pairs[i]);
        assert forall|k: int| 0 <= k < i - 1 implies (#[trigger] rest[k]).0 != key by {
            assert(rest[k] == pairs[k + 1]);
        }
        lemma_lookup_first(rest, key, i - 1);
    }
}

/// Selecting from one row more: the row is added if it is selected.
pub proof fn lemma_filter_step<A>(rows: Seq<A>, pred: spec_fn(A) -> bool, i: int)
    requires
        0 <= i < rows.len(),
    ensures
        rows.take(i + 1).filter(pred) == if pred(rows[i]) {
            rows.take(i).filter(pred).push(rows[i])
        } else {
            rows.take(i).filter(pred)
        },
        rows.take(rows.len() as int) == rows,
        rows.take(0).filter(pred) == Seq::<A>::empty(),
{
    reveal(Seq::filter);
    assert(rows.take(i + 1) =~= rows.take(i).push(rows[i]));
    rows.take(i).lemma_filter_push(rows[i], pred);
    assert(rows.take(rows.len() as int) =~= rows);
    assert(rows.take(0).len() == 0);
}

/// Before any row is looked at nothing is selected; with all of them looked at
/// the selection is that of the table.
pub proof fn lemma_filter_ends<A>(rows: Seq<A>, pred: spec_fn(A) -> bool)
    ensures
        rows.take(0).filter(pred) == Seq::<A>::empty(),
        rows.take(rows.len() as int) == rows,
{
    reveal(Seq::filter);
    assert(rows.take(0).len() == 0);
    assert(rows.take(rows.len() as int) =~= rows);
}

/// A selected row comes from the rows and is selected.
pub proof fn lemma_filter_source<A>(rows: Seq<A>, pred: spec_fn(A) -> bool, i: int) -> (k: int)
    requires
        0 <= i < rows.filter(pred).len(),
    ensures
        0 <= k < rows.len(),
        rows[k] == rows.filter(pred)[i],
        pred(rows[k]),
{
    rows.lemma_filter_pred(pred, i);
    let row = rows.filter(pred)[i];
    assert(rows.filter(pred).contains(row));
    rows.lemma_filter_contains_rev(pred, row);
    choose|k: int| 0 <= k < rows.len() && rows[k] == row
}

/// A row that is selected stands among the selected rows.
pub proof fn lemma_filter_target<A>(rows: Seq<A>, pred: spec_fn(A) -> bool, k: int) -> (i: int)
    requires
        0 <= k < rows.len(),
        pred(rows[k]),
    ensures
        0 <= i < rows.filter(pred).len(),
        rows.filter(pred)[i] == rows[k],
{
    rows.lemma_filter_contains(pred, k);
    choose|i: int| 0 <= i < rows.filter(pred).len() && rows.filter(pred)[i] == rows[k]
}

/// No two rows have the same key.
pub open spec fn distinct_keys<A, K>(rows: Seq<A>, key: spec_fn(A) -> K) -> bool {
    forall|i: int, j: int| 0 <= i < j < rows.len() ==> #[trigger] key(rows[i]) != #[trigger] key(rows[j])
}

/// A row is among the selected rows exactly if it is among the rows and is
/// selected.
pub proof fn lemma_filter_member<A>(rows: Seq<A>, pred: spec_fn(A) -> bool, row: A)
    ensures
        rows.filter(pred).contains(row) <==> rows.contains(row) && pred(row),
{
    if rows.filter(pred).contains(row) {
        rows.lemma_filter_contains_rev(pred, row);
        let i = choose|i: int| 0 <= i < rows.filter(pred).len() && rows.filter(pred)[i] == row;
        rows.lemma_filter_pred(pred, i);
    }
    if rows.contains(row) && pred(row) {
        let i = choose|i: int| 0 <= i < rows.len() && rows[i] == row;
        rows.lemma_filter_contains(pred, i);
    }
}

/// A selection of rows with distinct keys has distinct keys.
pub proof fn lemma_filter_distinct<A, K>(rows: Seq<A>, key: spec_fn(A) -> K, pred: spec_fn(A) -> bool)
    requires
        distinct_keys(rows, key),
    ensures
        distinct_keys(rows.filter(pred), key),
    decreases rows.len(),
{
    reveal(Seq::filter);
    if rows.len() > 0 {
        let front = rows.drop_last();
        let last = rows.last();
        assert forall|i: int, j: int| 0 <= i < j < front.len() implies #[trigger] key(front[i])
            != #[trigger] key(front[j]) by {
            assert(front[i] == rows[i]);
            assert(front[j] == rows[j]);
        }
        lemma_filter_distinct(front, key, pred);
        let kept = front.filter(pred);
        if pred(last) {
            let out = rows.filter(pred);
            assert(out == kept.push(last));
            assert forall|i: int, j: int| 0 <= i < j < out.len() implies #[trigger] key(out[i])
                != #[trigger] key(out[j]) by {
                if j < kept.len() {
                    assert(out[i] == kept[i]);
                    assert(out[j] == kept[j]);
                } else {
                    assert(out[i] == kept[i]);
                    assert(kept.contains(kept[i]));
                    front.lemma_filter_contains_rev(pred, kept[i]);
                    let a = choose|a: int| 0 <= a < front.len() && front[a] == kept[i];
                    assert(rows[a] == kept[i]);
                    assert(rows[rows.len() - 1] == last);
                    assert(key(rows[a]) != key(rows[rows.len() - 1]));
                }
            }
        }
    }
}

} // verus!
