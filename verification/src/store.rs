//! The result store held in memory, and the meaning it gives to statements
//! and transactions.
//!
//! `BATCH` holds one row per batch, keyed by its timestamp. `RESULT` holds one
//! row per processed input; rows are only ever appended, and removed in bulk
//! together with their batch.

use crate::result::Row;
use crate::rows::{BatchRow, ResultRow};
use crate::statement::{Answer, AnswerView, Statement, StoreError, Transaction};
use vstd::prelude::*;

verus! {

/// Selects the batch rows with identifier `id`.
pub open spec fn is_batch(id: u64) -> spec_fn(BatchRow) -> bool {
    |row: BatchRow| row.timestamp == id
}

/// Selects the batch rows with another identifier than `id`.
pub open spec fn not_batch(id: u64) -> spec_fn(BatchRow) -> bool {
    |row: BatchRow| row.timestamp != id
}

/// Selects the result rows of batch `id`.
pub open spec fn in_batch(id: u64) -> spec_fn(ResultRow) -> bool {
    |row: ResultRow| row.batch_id == id
}

/// Selects the result rows of other batches than `id`.
pub open spec fn not_in_batch(id: u64) -> spec_fn(ResultRow) -> bool {
    |row: ResultRow| row.batch_id != id
}

/// The two tables, each in stored order.
pub ghost struct Tables {
    pub batches: Seq<BatchRow>,
    pub results: Seq<ResultRow>,
}

impl Tables {
    /// Both tables without rows.
    pub open spec fn empty() -> Tables {
        Tables { batches: Seq::empty(), results: Seq::empty() }
    }

    /// Whether a batch with identifier `id` is recorded.
    pub open spec fn has_batch(self, id: u64) -> bool {
        self.batches.filter(is_batch(id)).len() > 0
    }

    /// The result rows of batch `id`, in stored order.
    pub open spec fn results_of(self, id: u64) -> Seq<ResultRow> {
        self.results.filter(in_batch(id))
    }

    /// No two batch rows share an identifier.
    pub open spec fn keyed(self) -> bool {
        forall|id: u64| #[trigger] self.batches.filter(is_batch(id)).len() <= 1
    }

    /// The tables after `probe` and `rest` as one transaction, with both
    /// answers. The transaction is rolled back, leaving the tables as they
    /// were, when either statement is refused, and as `NotFound` when `probe`
    /// touches and returns no row.
    pub open spec fn transact(self, probe: Statement, rest: Statement) -> (
        Tables,
        Result<(AnswerView, AnswerView), StoreError>,
    ) {
        match self.apply(probe).1 {
            Err(e) => (self, Err(e)),
            Ok(first) => if !first.found() {
                (self, Err(StoreError::NotFound))
            } else {
                match self.apply(probe).0.apply(rest).1 {
                    Err(e) => (self, Err(e)),
                    Ok(second) => (self.apply(probe).0.apply(rest).0, Ok((first, second))),
                }
            },
        }
    }

    /// The tables after `statement`, and the store's answer. A refused
    /// statement leaves the tables as they were.
    pub open spec fn apply(self, statement: Statement) -> (Tables, Result<AnswerView, StoreError>) {
        match statement {
            Statement::CreateBatchTable => (self, Ok(AnswerView::changed(0))),
            Statement::CreateResultTable => (self, Ok(AnswerView::changed(0))),
            Statement::InsertBatch(row) => if self.has_batch(row.timestamp) {
                (self, Err(StoreError::Duplicate))
            } else {
                (
                    Tables { batches: self.batches.push(row), results: self.results },
                    Ok(AnswerView::changed(1)),
                )
            },
            Statement::InsertResult(row) => (
                Tables { batches: self.batches, results: self.results.push(row) },
                Ok(AnswerView::changed(1)),
            ),
            Statement::DeleteBatch(id) => (
                Tables { batches: self.batches.filter(not_batch(id)), results: self.results },
                Ok(AnswerView::changed(self.batches.filter(is_batch(id)).len())),
            ),
            Statement::DeleteResults(id) => (
                Tables { batches: self.batches, results: self.results.filter(not_in_batch(id)) },
                Ok(AnswerView::changed(self.results.filter(in_batch(id)).len())),
            ),
            Statement::SelectBatch(id) => (
                self,
                Ok(
                    AnswerView::selected(
                        self.batches.filter(is_batch(id)).map_values(|row: BatchRow| row.cells()),
                    ),
                ),
            ),
            Statement::SelectResults(id) => (
                self,
                Ok(
                    AnswerView::selected(
                        self.results.filter(in_batch(id)).map_values(|row: ResultRow| row.cells()),
                    ),
                ),
            ),
        }
    }
}

/// A result store held in memory.
#[derive(Debug)]
pub struct Store {
    batches: Vec<BatchRow>,
    results: Vec<ResultRow>,
}

impl View for Store {
    type V = Tables;

    closed spec fn view(&self) -> Tables {
        Tables { batches: self.batches@, results: self.results@ }
    }
}

/// The view of an answer that may be a refusal.
pub open spec fn outcome_view(answer: Result<Answer, StoreError>) -> Result<
    AnswerView,
    StoreError,
> {
    match answer {
        Ok(a) => Ok(a@),
        Err(e) => Err(e),
    }
}

impl Store {
    /// A store with both tables empty.
    pub fn new() -> (store: Store)
        ensures
            store@ == Tables::empty(),
            store@.keyed(),
    {
        Store { batches: Vec::new(), results: Vec::new() }
    }

    /// The batch rows, in stored order.
    pub fn batches(&self) -> (rows: &Vec<BatchRow>)
        ensures
            rows@ == self@.batches,
    {
        &self.batches
    }

    /// The result rows of all batches, in stored order.
    pub fn results(&self) -> (rows: &Vec<ResultRow>)
        ensures
            rows@ == self@.results,
    {
        &self.results
    }

    /// A second store with the same rows.
    pub fn copy(&self) -> (store: Store)
        ensures
            store@ == self@,
    {
        let mut batches: Vec<BatchRow> = Vec::new();
        let mut i: usize = 0;
        while i < self.batches.len()
            invariant
                i <= self.batches.len(),
                batches@ == self.batches@.take(i as int),
            decreases self.batches.len() - i,
        {
            batches.push(self.batches[i].copy());
            assert(batches@ =~= self.batches@.take(i + 1));
            i += 1;
        }
        let mut results: Vec<ResultRow> = Vec::new();
        let mut j: usize = 0;
        while j < self.results.len()
            invariant
                j <= self.results.len(),
                batches@ == self.batches@.take(self.batches.len() as int),
                results@ == self.results@.take(j as int),
            decreases self.results.len() - j,
        {
            results.push(self.results[j].copy());
            assert(results@ =~= self.results@.take(j + 1));
            j += 1;
        }
        assert(batches@ =~= self.batches@);
        assert(results@ =~= self.results@);
        Store { batches, results }
    }

    fn count_batches(&self, id: u64) -> (n: usize)
        ensures
            n == self@.batches.filter(is_batch(id)).len(),
    {
        let mut n: usize = 0;
        let mut i: usize = 0;
        assert(self.batches@.take(0) =~= Seq::empty());
        proof {
            reveal(Seq::filter);
        }
        assert(self.batches@.take(0).filter(is_batch(id)).len() == 0);
        while i < self.batches.len()
            invariant
                i <= self.batches.len(),
                n <= i,
                n == self.batches@.take(i as int).filter(is_batch(id)).len(),
            decreases self.batches.len() - i,
        {
            proof {
                assert(self.batches@.take(i + 1) =~= self.batches@.take(i as int).push(
                    self.batches[i as int],
                ));
                self.batches@.take(i as int).lemma_filter_push(
                    self.batches[i as int],
                    is_batch(id),
                );
            }
            if self.batches[i].timestamp == id {
                n += 1;
            }
            i += 1;
        }
        assert(self.batches@.take(self.batches.len() as int) =~= self.batches@);
        n
    }
}

/// Splits off the rows of batch `id`: what stays, in order, and how many left.
fn drop_batch(rows: Vec<BatchRow>, id: u64) -> (out: (Vec<BatchRow>, usize))
    ensures
        out.0@ == rows@.filter(not_batch(id)),
        out.1 == rows@.filter(is_batch(id)).len(),
{
    let mut kept: Vec<BatchRow> = Vec::new();
    let mut removed: usize = 0;
    let ghost all = rows@;
    let total = rows.len();
    proof {
        reveal(Seq::filter);
        assert(all.take(0) =~= Seq::empty());
    }
    for row in it: rows.into_iter()
        invariant
            it.seq() == all,
            all.len() == total,
            removed <= it.index(),
            kept@ == all.take(it.index() as int).filter(not_batch(id)),
            removed == all.take(it.index() as int).filter(is_batch(id)).len(),
    {
        proof {
            let k = it.index() as int;
            assert(all.take(k + 1) =~= all.take(k).push(all[k]));
            all.take(k).lemma_filter_push(all[k], is_batch(id));
            all.take(k).lemma_filter_push(all[k], not_batch(id));
        }
        if row.timestamp == id {
            removed += 1;
        } else {
            kept.push(row);
        }
    }
    assert(all.take(all.len() as int) =~= all);
    (kept, removed)
}

/// Splits off the result rows of batch `id`: what stays, in order, and how
/// many left.
fn drop_results(rows: Vec<ResultRow>, id: u64) -> (out: (Vec<ResultRow>, usize))
    ensures
        out.0@ == rows@.filter(not_in_batch(id)),
        out.1 == rows@.filter(in_batch(id)).len(),
{
    let mut kept: Vec<ResultRow> = Vec::new();
    let mut removed: usize = 0;
    let ghost all = rows@;
    let total = rows.len();
    proof {
        reveal(Seq::filter);
        assert(all.take(0) =~= Seq::empty());
    }
    for row in it: rows.into_iter()
        invariant
            it.seq() == all,
            all.len() == total,
            removed <= it.index(),
            kept@ == all.take(it.index() as int).filter(not_in_batch(id)),
            removed == all.take(it.index() as int).filter(in_batch(id)).len(),
    {
        proof {
            let k = it.index() as int;
            assert(all.take(k + 1) =~= all.take(k).push(all[k]));
            all.take(k).lemma_filter_push(all[k], in_batch(id));
            all.take(k).lemma_filter_push(all[k], not_in_batch(id));
        }
        if row.batch_id == id {
            removed += 1;
        } else {
            kept.push(row);
        }
    }
    assert(all.take(all.len() as int) =~= all);
    (kept, removed)
}

/// Filtering by a second predicate never selects more than it does alone.
proof fn lemma_filter_twice_len<A>(s: Seq<A>, p: spec_fn(A) -> bool, q: spec_fn(A) -> bool)
    ensures
        s.filter(p).filter(q).len() <= s.filter(q).len(),
    decreases s.len(),
{
    reveal(Seq::filter);
    if s.len() > 0 {
        lemma_filter_twice_len(s.drop_last(), p, q);
        assert(s.drop_last().push(s.last()) =~= s);
        s.drop_last().lemma_filter_push(s.last(), p);
        s.drop_last().lemma_filter_push(s.last(), q);
        s.drop_last().filter(p).lemma_filter_push(s.last(), q);
    }
}

/// Every statement keeps batch identifiers unique.
pub proof fn lemma_apply_keeps_keys(tables: Tables, statement: Statement)
    requires
        tables.keyed(),
    ensures
        tables.apply(statement).0.keyed(),
{
    let after = tables.apply(statement).0;
    assert forall|id: u64| #[trigger] after.batches.filter(is_batch(id)).len() <= 1 by {
        assert(tables.batches.filter(is_batch(id)).len() <= 1);
        match statement {
            Statement::InsertBatch(row) => {
                tables.batches.lemma_filter_push(row, is_batch(id));
            },
            Statement::DeleteBatch(gone) => {
                lemma_filter_twice_len(tables.batches, not_batch(gone), is_batch(id));
            },
            _ => {},
        }
    }
}

/// Every transaction keeps batch identifiers unique.
pub proof fn lemma_transact_keeps_keys(tables: Tables, probe: Statement, rest: Statement)
    requires
        tables.keyed(),
    ensures
        tables.transact(probe, rest).0.keyed(),
{
    lemma_apply_keeps_keys(tables, probe);
    lemma_apply_keeps_keys(tables.apply(probe).0, rest);
}

/// The views of both answers of a transaction that may have been refused.
pub open spec fn outcomes_view(answers: Result<(Answer, Answer), StoreError>) -> Result<
    (AnswerView, AnswerView),
    StoreError,
> {
    match answers {
        Ok((first, second)) => Ok((first@, second@)),
        Err(e) => Err(e),
    }
}

impl Store {
    fn select_batch(&self, id: u64) -> (rows: Vec<Row>)
        ensures
            rows.deep_view() == self@.batches.filter(is_batch(id)).map_values(
                |row: BatchRow| row.cells(),
            ),
    {
        let mut rows: Vec<Row> = Vec::new();
        let mut i: usize = 0;
        let ghost all = self.batches@;
        let ghost cells = |row: BatchRow| row.cells();
        proof {
            reveal(Seq::filter);
            assert(all.take(0) =~= Seq::empty());
            assert(rows.deep_view() =~= all.take(0).filter(is_batch(id)).map_values(cells));
        }
        while i < self.batches.len()
            invariant
                i <= self.batches.len(),
                all == self.batches@,
                cells == |row: BatchRow| row.cells(),
                rows.deep_view() == all.take(i as int).filter(is_batch(id)).map_values(cells),
            decreases self.batches.len() - i,
        {
            let ghost before = rows.deep_view();
            proof {
                assert(all.take(i + 1) =~= all.take(i as int).push(all[i as int]));
                all.take(i as int).lemma_filter_push(all[i as int], is_batch(id));
            }
            if self.batches[i].timestamp == id {
                rows.push(self.batches[i].to_row());
                assert(rows.deep_view() =~= before.push(all[i as int].cells()));
                assert(all.take(i as int).filter(is_batch(id)).push(all[i as int]).map_values(cells)
                    =~= before.push(all[i as int].cells()));
            }
            i += 1;
        }
        assert(all.take(self.batches.len() as int) =~= all);
        rows
    }

    fn select_results(&self, id: u64) -> (rows: Vec<Row>)
        ensures
            rows.deep_view() == self@.results.filter(in_batch(id)).map_values(
                |row: ResultRow| row.cells(),
            ),
    {
        let mut rows: Vec<Row> = Vec::new();
        let mut i: usize = 0;
        let ghost all = self.results@;
        let ghost cells = |row: ResultRow| row.cells();
        proof {
            reveal(Seq::filter);
            assert(all.take(0) =~= Seq::empty());
            assert(rows.deep_view() =~= all.take(0).filter(in_batch(id)).map_values(cells));
        }
        while i < self.results.len()
            invariant
                i <= self.results.len(),
                all == self.results@,
                cells == |row: ResultRow| row.cells(),
                rows.deep_view() == all.take(i as int).filter(in_batch(id)).map_values(cells),
            decreases self.results.len() - i,
        {
            let ghost before = rows.deep_view();
            proof {
                assert(all.take(i + 1) =~= all.take(i as int).push(all[i as int]));
                all.take(i as int).lemma_filter_push(all[i as int], in_batch(id));
            }
            if self.results[i].batch_id == id {
                rows.push(self.results[i].to_row());
                assert(rows.deep_view() =~= before.push(all[i as int].cells()));
                assert(all.take(i as int).filter(in_batch(id)).push(all[i as int]).map_values(cells)
                    =~= before.push(all[i as int].cells()));
            }
            i += 1;
        }
        assert(all.take(self.results.len() as int) =~= all);
        rows
    }

    /// Runs one statement. The tables change and the answer reads as
    /// `Tables::apply` says; in particular a refused statement changes
    /// nothing.
    pub fn execute(&mut self, statement: Statement) -> (answer: Result<Answer, StoreError>)
        ensures
            (final(self)@, outcome_view(answer)) == old(self)@.apply(statement),
            old(self)@.keyed() ==> final(self)@.keyed(),
    {
        proof {
            if old(self)@.keyed() {
                lemma_apply_keeps_keys(old(self)@, statement);
            }
        }
        match statement {
            Statement::CreateBatchTable => Ok(Answer::changed(0)),
            Statement::CreateResultTable => Ok(Answer::changed(0)),
            Statement::InsertBatch(row) => {
                if self.count_batches(row.timestamp) > 0 {
                    Err(StoreError::Duplicate)
                } else {
                    self.batches.push(row);
                    Ok(Answer::changed(1))
                }
            },
            Statement::InsertResult(row) => {
                self.results.push(row);
                Ok(Answer::changed(1))
            },
            Statement::DeleteBatch(id) => {
                let mut rows: Vec<BatchRow> = Vec::new();
                core::mem::swap(&mut rows, &mut self.batches);
                let (kept, removed) = drop_batch(rows, id);
                self.batches = kept;
                Ok(Answer::changed(removed as u64))
            },
            Statement::DeleteResults(id) => {
                let mut rows: Vec<ResultRow> = Vec::new();
                core::mem::swap(&mut rows, &mut self.results);
                let (kept, removed) = drop_results(rows, id);
                self.results = kept;
                Ok(Answer::changed(removed as u64))
            },
            Statement::SelectBatch(id) => {
                let rows = self.select_batch(id);
                Ok(Answer::selected(rows))
            },
            Statement::SelectResults(id) => {
                let rows = self.select_results(id);
                Ok(Answer::selected(rows))
            },
        }
    }

    /// Runs a transaction: both statements take effect, or neither does.
    pub fn transact(&mut self, transaction: Transaction) -> (answers: Result<
        (Answer, Answer),
        StoreError,
    >)
        ensures
            (final(self)@, outcomes_view(answers)) == old(self)@.transact(
                transaction.probe,
                transaction.rest,
            ),
            old(self)@.keyed() ==> final(self)@.keyed(),
    {
        proof {
            if old(self)@.keyed() {
                lemma_transact_keeps_keys(old(self)@, transaction.probe, transaction.rest);
            }
        }
        let saved = self.copy();
        match self.execute(transaction.probe) {
            Err(e) => Err(e),
            Ok(first) => match Transaction::found(&first) {
                Err(e) => {
                    *self = saved;
                    Err(e)
                },
                Ok(_) => match self.execute(transaction.rest) {
                    Err(e) => {
                        *self = saved;
                        Err(e)
                    },
                    Ok(second) => Ok((first, second)),
                },
            },
        }
    }
}

} // verus!
