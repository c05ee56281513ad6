//! What holds of the store under recording, clearing and showing, stated over
//! the tables and proved for every state of them.

use crate::batch::rendered;
use crate::result::csv_line;
use crate::rows::ResultRow;
use crate::statement::{AnswerView, Statement, StoreError};
use crate::store::{in_batch, is_batch, not_batch, not_in_batch, Tables};
use vstd::prelude::*;

verus! {

/// Filtering by `q` what `p` kept selects nothing when no value meets both.
pub proof fn lemma_filter_disjoint<A>(s: Seq<A>, p: spec_fn(A) -> bool, q: spec_fn(A) -> bool)
    requires
        forall|a: A| #[trigger] p(a) ==> !q(a),
    ensures
        s.filter(p).filter(q) == Seq::<A>::empty(),
    decreases s.len(),
{
    reveal(Seq::filter);
    if s.len() > 0 {
        lemma_filter_disjoint(s.drop_last(), p, q);
        assert(s.drop_last().push(s.last()) =~= s);
        s.drop_last().lemma_filter_push(s.last(), p);
        s.drop_last().filter(p).lemma_filter_push(s.last(), q);
    }
}

/// Filtering by `q` what `p` kept selects what `q` selects alone when every
/// value that meets `q` meets `p`.
pub proof fn lemma_filter_within<A>(s: Seq<A>, p: spec_fn(A) -> bool, q: spec_fn(A) -> bool)
    requires
        forall|a: A| #[trigger] q(a) ==> p(a),
    ensures
        s.filter(p).filter(q) == s.filter(q),
    decreases s.len(),
{
    reveal(Seq::filter);
    if s.len() > 0 {
        lemma_filter_within(s.drop_last(), p, q);
        assert(s.drop_last().push(s.last()) =~= s);
        s.drop_last().lemma_filter_push(s.last(), p);
        s.drop_last().lemma_filter_push(s.last(), q);
        s.drop_last().filter(p).lemma_filter_push(s.last(), q);
    }
}

/// Filtering distributes over appending.
pub proof fn lemma_filter_add<A>(s: Seq<A>, t: Seq<A>, p: spec_fn(A) -> bool)
    ensures
        (s + t).filter(p) == s.filter(p) + t.filter(p),
    decreases t.len(),
{
    reveal(Seq::filter);
    if t.len() == 0 {
        assert(s + t =~= s);
        assert(s.filter(p) + t.filter(p) =~= s.filter(p));
    } else {
        lemma_filter_add(s, t.drop_last(), p);
        assert((s + t.drop_last()).push(t.last()) =~= s + t);
        assert(t.drop_last().push(t.last()) =~= t);
        (s + t.drop_last()).lemma_filter_push(t.last(), p);
        t.drop_last().lemma_filter_push(t.last(), p);
        if p(t.last()) {
            assert((s.filter(p) + t.drop_last().filter(p)).push(t.last()) =~= s.filter(p)
                + t.drop_last().filter(p).push(t.last()));
        }
    }
}

/// A filter keeps all of a sequence whose every value meets it.
pub proof fn lemma_filter_all<A>(s: Seq<A>, p: spec_fn(A) -> bool)
    requires
        forall|i: int| 0 <= i < s.len() ==> p(#[trigger] s[i]),
    ensures
        s.filter(p) == s,
    decreases s.len(),
{
    reveal(Seq::filter);
    if s.len() > 0 {
        assert forall|i: int| 0 <= i < s.drop_last().len() implies p(
            #[trigger] s.drop_last()[i],
        ) by {
            assert(s.drop_last()[i] == s[i]);
        }
        lemma_filter_all(s.drop_last(), p);
        assert(s.drop_last().push(s.last()) =~= s);
    }
}

/// The tables after the result rows `rows` were inserted one after another.
pub open spec fn appended(tables: Tables, rows: Seq<ResultRow>) -> Tables
    decreases rows.len(),
{
    if rows.len() == 0 {
        tables
    } else {
        appended(tables, rows.drop_last()).apply(Statement::InsertResult(rows.last())).0
    }
}

/// Inserting result rows one after another appends them to `RESULT` in that
/// order and leaves `BATCH` alone; no insert is refused.
pub proof fn lemma_appended(tables: Tables, rows: Seq<ResultRow>)
    ensures
        appended(tables, rows).results == tables.results + rows,
        appended(tables, rows).batches == tables.batches,
        rows.len() > 0 ==> appended(tables, rows.drop_last()).apply(
            Statement::InsertResult(rows.last()),
        ).1 == Ok::<AnswerView, StoreError>(AnswerView::changed(1)),
    decreases rows.len(),
{
    if rows.len() == 0 {
        assert(tables.results + rows =~= tables.results);
    } else {
        lemma_appended(tables, rows.drop_last());
        assert((tables.results + rows.drop_last()).push(rows.last()) =~= tables.results + rows);
    }
}

/// After `n` rows were recorded for batch `id`, the batch has `n` rows more,
/// in the order in which they were recorded behind those it had, and every
/// other batch has the rows it had.
pub proof fn lemma_each_run_is_one_row(tables: Tables, rows: Seq<ResultRow>, id: u64, other: u64)
    requires
        forall|i: int| 0 <= i < rows.len() ==> (#[trigger] rows[i]).batch_id == id,
        other != id,
    ensures
        appended(tables, rows).results_of(id) == tables.results_of(id) + rows,
        appended(tables, rows).results_of(id).len() == tables.results_of(id).len() + rows.len(),
        appended(tables, rows).results_of(other) == tables.results_of(other),
{
    lemma_appended(tables, rows);
    lemma_filter_add(tables.results, rows, in_batch(id));
    lemma_filter_add(tables.results, rows, in_batch(other));
    lemma_filter_all(rows, in_batch(id));
    lemma_filter_disjoint(rows, in_batch(id), in_batch(other));
    assert(rows.filter(in_batch(id)) == rows);
    assert(rows.filter(in_batch(other)) =~= Seq::<ResultRow>::empty());
    assert(tables.results_of(other) + Seq::<ResultRow>::empty() =~= tables.results_of(other));
}

/// The tables after the transaction that clears batch `id`.
pub open spec fn cleared(tables: Tables, id: u64) -> Tables {
    tables.transact(Statement::DeleteBatch(id), Statement::DeleteResults(id)).0
}

/// What showing batch `id` gives: the header line and the result lines, or
/// the refusal.
pub open spec fn shown(tables: Tables, id: u64) -> Result<(Seq<char>, Seq<Seq<char>>), StoreError> {
    match tables.transact(Statement::SelectBatch(id), Statement::SelectResults(id)).1 {
        Ok((found, results)) => rendered(found.rows, results.rows),
        Err(e) => Err(e),
    }
}

/// Clearing is all or nothing. Where the batch is recorded, its batch row and
/// every one of its result rows are gone afterwards and the rows of other
/// batches are as before. Where it is not, the transaction is refused as
/// `NotFound` and both tables are as before.
pub proof fn lemma_clear(tables: Tables, id: u64)
    ensures
        tables.has_batch(id) ==> {
            &&& tables.transact(Statement::DeleteBatch(id), Statement::DeleteResults(id)).1 is Ok
            &&& cleared(tables, id).batches == tables.batches.filter(not_batch(id))
            &&& cleared(tables, id).results == tables.results.filter(not_in_batch(id))
            &&& !cleared(tables, id).has_batch(id)
            &&& cleared(tables, id).results_of(id).len() == 0
        },
        !tables.has_batch(id) ==> {
            &&& tables.transact(Statement::DeleteBatch(id), Statement::DeleteResults(id)).1
                == Err::<(AnswerView, AnswerView), StoreError>(StoreError::NotFound)
            &&& cleared(tables, id) == tables
        },
        forall|other: u64|
            other != id ==> #[trigger] cleared(tables, id).results_of(other) == tables.results_of(
                other,
            ) && cleared(tables, id).has_batch(other) == tables.has_batch(other),
{
    lemma_filter_disjoint(tables.batches, not_batch(id), is_batch(id));
    lemma_filter_disjoint(tables.results, not_in_batch(id), in_batch(id));
    assert forall|other: u64| other != id implies #[trigger] cleared(tables, id).results_of(other)
        == tables.results_of(other) && cleared(tables, id).has_batch(other) == tables.has_batch(
        other,
    ) by {
        lemma_filter_within(tables.batches, not_batch(id), is_batch(other));
        lemma_filter_within(tables.results, not_in_batch(id), in_batch(other));
    }
}

/// Showing a batch right after clearing it fails with `NotFound`, whether or
/// not the batch was there to clear.
pub proof fn lemma_clear_then_show(tables: Tables, id: u64)
    ensures
        shown(cleared(tables, id), id) == Err::<(Seq<char>, Seq<Seq<char>>), StoreError>(
            StoreError::NotFound,
        ),
{
    lemma_clear(tables, id);
}

/// Showing changes nothing, so showing a batch twice with no write between
/// gives the same header and the same lines twice.
pub proof fn lemma_show_twice(tables: Tables, id: u64)
    ensures
        tables.transact(Statement::SelectBatch(id), Statement::SelectResults(id)).0 == tables,
        shown(
            tables.transact(Statement::SelectBatch(id), Statement::SelectResults(id)).0,
            id,
        ) == shown(tables, id),
{
}

/// Showing succeeds exactly when the batch is recorded. It then gives the
/// batch row as the header and one line for each of the batch's result rows,
/// in stored order, and nothing of any other batch.
pub proof fn lemma_show(tables: Tables, id: u64)
    ensures
        shown(tables, id) is Ok <==> tables.has_batch(id),
        !tables.has_batch(id) ==> shown(tables, id) == Err::<
            (Seq<char>, Seq<Seq<char>>),
            StoreError,
        >(StoreError::NotFound),
        tables.has_batch(id) ==> shown(tables, id)->Ok_0.0 == csv_line(
            tables.batches.filter(is_batch(id))[0].cells(),
        ),
        tables.has_batch(id) ==> shown(tables, id)->Ok_0.1 == tables.results_of(id).map_values(
            |row: ResultRow| csv_line(row.cells()),
        ),
{
    if tables.has_batch(id) {
        let lines = shown(tables, id)->Ok_0.1;
        assert(lines =~= tables.results_of(id).map_values(|row: ResultRow| csv_line(row.cells())));
    }
}

} // verus!
