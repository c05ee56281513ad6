//! A batch: one identifier under which outcomes are recorded, and the
//! lifecycle operations on whole batches.
//!
//! The operations on a batch touch no store. Each yields the statement or
//! the transaction to run, so the same decisions drive the store in memory
//! and a database alike. `run_in_order` is batch mode over the store in
//! memory.

use crate::executor::{Executor, ExecutorError, Output};
use crate::result::{csv, csv_line, ResultSet};
use crate::rows::{BatchRow, Outcome, ResultRow};
use crate::statement::{Answer, Statement, StoreError, Transaction};
use crate::store::Store;
use crate::text::{lossy, lossy_text};
use std::time::{Duration, SystemTime, SystemTimeError, UNIX_EPOCH};
use vstd::prelude::*;
use vstd::string::*;
use vstd::utf8::*;

verus! {

/// `std::time::SystemTime`, carried as an opaque value.
#[verifier::external_type_specification]
#[verifier::external_body]
pub struct ExSystemTime(std::time::SystemTime);

/// `std::time::SystemTimeError`, carried as an opaque value.
#[verifier::external_type_specification]
#[verifier::external_body]
pub struct ExSystemTimeError(std::time::SystemTimeError);

/// `SystemTime::now`: the wall clock's reading. Nothing is claimed of it.
#[verifier::external_body]
fn clock() -> SystemTime {
    SystemTime::now()
}

/// `SystemTime::duration_since`, measured from the Unix epoch, which fails for
/// a reading before the epoch. Nothing is claimed of the result.
#[verifier::external_body]
fn since_epoch(reading: &SystemTime) -> Result<Duration, SystemTimeError> {
    reading.duration_since(UNIX_EPOCH)
}

/// `Duration::as_secs`: the whole seconds of a span. Nothing is claimed of
/// the number.
#[verifier::external_body]
fn whole_seconds(span: &Duration) -> u64 {
    span.as_secs()
}

/// The current time in whole seconds since the Unix epoch, or `None` when the
/// clock reads a time before the epoch.
pub fn unix_now() -> Option<u64> {
    let reading = clock();
    match since_epoch(&reading) {
        Ok(span) => Some(whole_seconds(&span)),
        Err(_) => None,
    }
}

/// The statements that create both tables where they are missing.
pub fn setup() -> (statements: Vec<Statement>)
    ensures
        statements@ == seq![Statement::CreateBatchTable, Statement::CreateResultTable],
{
    let mut statements: Vec<Statement> = Vec::new();
    statements.push(Statement::CreateBatchTable);
    statements.push(Statement::CreateResultTable);
    assert(statements@ =~= seq![Statement::CreateBatchTable, Statement::CreateResultTable]);
    statements
}

/// The statement that records a batch with its command line.
pub fn insert_batch_record(timestamp: u64, arguments: &str) -> (statement: Statement)
    ensures
        statement matches Statement::InsertBatch(row) && row.timestamp == timestamp
            && row.arguments@ == arguments@,
{
    Statement::InsertBatch(BatchRow { timestamp, arguments: arguments.to_owned() })
}

/// Deleting a batch: its batch row first, then all of its result rows, as one
/// transaction that is abandoned as `NotFound` when no batch row was deleted.
pub fn clear(id: u64) -> (transaction: Transaction)
    ensures
        transaction == (Transaction {
            probe: Statement::DeleteBatch(id),
            rest: Statement::DeleteResults(id),
        }),
{
    Transaction { probe: Statement::DeleteBatch(id), rest: Statement::DeleteResults(id) }
}

/// Reading a batch: its batch row first, then all of its result rows, as one
/// transaction that is abandoned as `NotFound` when there is no batch row.
pub fn show(id: u64) -> (transaction: Transaction)
    ensures
        transaction == (Transaction {
            probe: Statement::SelectBatch(id),
            rest: Statement::SelectResults(id),
        }),
{
    Transaction { probe: Statement::SelectBatch(id), rest: Statement::SelectResults(id) }
}

/// What `report` makes of the two answers of a `show` transaction.
pub open spec fn rendered(
    found: Seq<Seq<Option<Seq<u8>>>>,
    results: Seq<Seq<Option<Seq<u8>>>>,
) -> Result<(Seq<char>, Seq<Seq<char>>), StoreError> {
    if found.len() == 0 {
        Err(StoreError::NotFound)
    } else {
        Ok(
            (
                csv_line(found[0]),
                results.map_values(|cells: Seq<Option<Seq<u8>>>| csv_line(cells)),
            ),
        )
    }
}

/// The view of a report that may be a refusal.
pub open spec fn report_view(report: Result<(String, Vec<String>), StoreError>) -> Result<
    (Seq<char>, Seq<Seq<char>>),
    StoreError,
> {
    match report {
        Ok((header, lines)) => Ok((header@, lines.deep_view())),
        Err(e) => Err(e),
    }
}

/// Renders a batch for display: the batch row as the header line, then one
/// line per result row in the order the store returned them. Without a batch
/// row there is nothing to show.
pub fn report(found: Answer, results: Answer) -> (report: Result<
    (String, Vec<String>),
    StoreError,
>)
    ensures
        report_view(report) == rendered(found@.rows, results@.rows),
{
    if found.rows.len() == 0 {
        return Err(StoreError::NotFound);
    }
    let header = csv(&found.rows[0]);
    let lines = ResultSet::new(results.rows).to_csv_rows();
    Ok((header, lines))
}

/// Whether `row` is the result row of batch `id` for the record `input` whose
/// invocation ended as `outcome`. An invocation that ran to its end gives a
/// success row with its output decoded lossily, so that well-formed UTF-8 is
/// kept as it is, and its exit code as it came; one that the operating system
/// refused gives a failure row with the error's text.
pub open spec fn records(
    row: ResultRow,
    id: u64,
    input: Seq<char>,
    outcome: Result<Output, ExecutorError>,
) -> bool {
    &&& row.batch_id == id
    &&& row.input@ == input
    &&& match outcome {
        Ok(output) => row.outcome matches Outcome::Success { stdout, stderr, exit_code }
            && stdout@ == lossy_text(output.stdout@) && stderr@ == lossy_text(output.stderr@)
            && exit_code == output.code && (valid_utf8(output.stdout@) ==> stdout@ == decode_utf8(
            output.stdout@,
        )) && (valid_utf8(output.stderr@) ==> stderr@ == decode_utf8(output.stderr@)),
        Err(e) => row.outcome matches Outcome::Failure { error } && error@ == e.text(),
    }
}

/// One batch: its identifier and the command that its records are fed to.
#[derive(Debug, PartialEq, Eq)]
pub struct Batch {
    timestamp: u64,
    exe: Executor,
}

/// The batch to monitor under an identifier that the caller names. Attaching
/// creates nothing: `found` is the answer to selecting the batch row, and
/// without such a row there is no batch to attach to.
pub fn attach(id: u64, exe: Executor, found: &Answer) -> (batch: Result<Batch, StoreError>)
    ensures
        match batch {
            Ok(b) => found@.found() && b.id() == id && b.command() == exe,
            Err(e) => !found@.found() && e == StoreError::NotFound,
        },
{
    match Transaction::found(found) {
        Ok(_) => Ok(Batch::new(id, exe)),
        Err(e) => Err(e),
    }
}

/// A fresh batch when `id` is `None`, identified by the current time; else
/// the batch that the caller names. Only reading the clock can fail.
pub fn new(id: Option<u64>, exe: Executor) -> (batch: Option<Batch>)
    ensures
        id is Some ==> batch is Some,
        batch matches Some(b) ==> b.command() == exe && (id matches Some(i) ==> b.id() == i),
{
    match id {
        Some(i) => Some(Batch::new(i, exe)),
        None => match unix_now() {
            Some(now) => Some(Batch::new(now, exe)),
            None => None,
        },
    }
}

impl Batch {
    /// The batch's identifier.
    pub closed spec fn id(&self) -> u64 {
        self.timestamp
    }

    /// The batch's command template.
    pub closed spec fn command(&self) -> Executor {
        self.exe
    }

    /// The batch with this identifier and this command.
    pub fn new(timestamp: u64, exe: Executor) -> (batch: Batch)
        ensures
            batch.id() == timestamp,
            batch.command() == exe,
    {
        Batch { timestamp, exe }
    }

    /// The batch's identifier.
    pub fn timestamp(&self) -> (id: u64)
        ensures
            id == self.id(),
    {
        self.timestamp
    }

    /// The batch's command template.
    pub fn executor(&self) -> (exe: &Executor)
        ensures
            *exe == self.command(),
    {
        &self.exe
    }

    /// The statement that records this batch with its command line.
    pub fn record(&self, arguments: &str) -> (statement: Statement)
        ensures
            statement matches Statement::InsertBatch(row) && row.timestamp == self.id()
                && row.arguments@ == arguments@,
    {
        insert_batch_record(self.timestamp, arguments)
    }

    /// The statement that records what became of `row`: the insert of the
    /// one result row that `records` describes.
    pub fn run(&self, row: String, outcome: Result<Output, ExecutorError>) -> (statement: Statement)
        ensures
            statement matches Statement::InsertResult(r) && records(r, self.id(), row@, outcome),
    {
        let recorded = match outcome {
            Ok(output) => Outcome::Success {
                stdout: lossy(output.stdout.as_slice()),
                stderr: lossy(output.stderr.as_slice()),
                exit_code: output.code,
            },
            Err(e) => Outcome::Failure { error: e.message() },
        };
        self.write(row.as_str(), recorded)
    }

    /// The statement that appends one result row to this batch.
    pub fn write(&self, row: &str, outcome: Outcome) -> (statement: Statement)
        ensures
            statement matches Statement::InsertResult(r) && r.batch_id == self.id() && r.input@
                == row@ && r.outcome == outcome,
    {
        Statement::InsertResult(
            ResultRow { batch_id: self.timestamp, input: row.to_owned(), outcome },
        )
    }
}

/// Batch mode: records the outcome of every item, one after another and in
/// the order given. Each item is an input record with the way its invocation
/// ended. The store gets one result row per item behind the rows it had, in
/// the order of the items, and nothing else in it changes.
pub fn run_in_order(
    batch: &Batch,
    store: &mut Store,
    items: Vec<(String, Result<Output, ExecutorError>)>,
)
    ensures
        final(store)@.batches == old(store)@.batches,
        final(store)@.results.len() == old(store)@.results.len() + items.len(),
        final(store)@.results.take(old(store)@.results.len() as int) == old(store)@.results,
        forall|i: int|
            0 <= i < items.len() ==> records(
                #[trigger] final(store)@.results[old(store)@.results.len() + i],
                batch.id(),
                items[i].0@,
                items[i].1,
            ),
        old(store)@.keyed() ==> final(store)@.keyed(),
{
    let ghost all = items@;
    let ghost before = store@;
    let ghost base = store@.results.len() as int;
    for item in it: items.into_iter()
        invariant
            it.seq() == all,
            base == before.results.len(),
            store@.batches == before.batches,
            store@.results.len() == base + it.index(),
            store@.results.take(base) == before.results,
            forall|i: int|
                0 <= i < it.index() ==> records(
                    #[trigger] store@.results[base + i],
                    batch.id(),
                    all[i].0@,
                    all[i].1,
                ),
            before.keyed() ==> store@.keyed(),
    {
        let ghost earlier = store@;
        let (row, outcome) = item;
        let statement = batch.run(row, outcome);
        let _ = store.execute(statement);
        assert(store@.results.take(base) =~= earlier.results.take(base));
        assert forall|i: int| 0 <= i < it.index() + 1 implies records(
            #[trigger] store@.results[base + i],
            batch.id(),
            all[i].0@,
            all[i].1,
        ) by {
            if i < it.index() {
                assert(store@.results[base + i] == earlier.results[base + i]);
            }
        }
    }
}

} // verus!
