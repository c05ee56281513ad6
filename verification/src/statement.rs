//! The statements that act on the store, the values they bind, and the
//! answers they get.

use crate::result::Row;
use crate::rows::{key, stored_key, BatchRow, Outcome, ResultRow};
use vstd::prelude::*;
use vstd::string::*;

verus! {

/// Why the store refused a statement or a transaction.
#[derive(Debug, PartialEq, Eq, Clone, Copy)]
pub enum StoreError {
    /// No batch has the identifier asked for.
    NotFound,
    /// A batch with that identifier is already recorded.
    Duplicate,
}

/// A value bound to a placeholder of a statement.
#[derive(Debug, PartialEq, Eq)]
pub enum Value {
    Null,
    Integer(i64),
    Text(String),
}

/// One statement against the store.
#[derive(Debug, PartialEq, Eq)]
pub enum Statement {
    /// Creates `BATCH` unless it exists.
    CreateBatchTable,
    /// Creates `RESULT` unless it exists.
    CreateResultTable,
    InsertBatch(BatchRow),
    InsertResult(ResultRow),
    /// Deletes the batch row with this identifier.
    DeleteBatch(u64),
    /// Deletes every result row of this batch.
    DeleteResults(u64),
    /// Selects the batch row with this identifier.
    SelectBatch(u64),
    /// Selects every result row of this batch, in stored order.
    SelectResults(u64),
}

/// What the store answered to one statement.
#[derive(Debug, PartialEq, Eq)]
pub struct Answer {
    /// How many rows the statement inserted or deleted.
    pub affected: u64,
    /// The rows that the statement selected.
    pub rows: Vec<Row>,
}

/// An answer as a count and the cells of each row.
pub ghost struct AnswerView {
    pub affected: nat,
    pub rows: Seq<Seq<Option<Seq<u8>>>>,
}

impl View for Answer {
    type V = AnswerView;

    open spec fn view(&self) -> AnswerView {
        AnswerView { affected: self.affected as nat, rows: self.rows.deep_view() }
    }
}

impl AnswerView {
    /// The answer to a statement that changed `n` rows.
    pub open spec fn changed(n: nat) -> AnswerView {
        AnswerView { affected: n, rows: Seq::empty() }
    }

    /// The answer to a statement that selected `rows`.
    pub open spec fn selected(rows: Seq<Seq<Option<Seq<u8>>>>) -> AnswerView {
        AnswerView { affected: 0, rows }
    }

    /// Whether the statement touched or returned any row.
    pub open spec fn found(self) -> bool {
        self.affected > 0 || self.rows.len() > 0
    }
}

impl Answer {
    /// The answer to a statement that inserted or deleted `n` rows.
    pub fn changed(n: u64) -> (answer: Answer)
        ensures
            answer@ == AnswerView::changed(n as nat),
    {
        let rows: Vec<Row> = Vec::new();
        assert(rows.deep_view() =~= Seq::empty());
        Answer { affected: n, rows }
    }

    /// The answer to a query that selected `rows`.
    pub fn selected(rows: Vec<Row>) -> (answer: Answer)
        ensures
            answer@ == AnswerView::selected(rows.deep_view()),
    {
        Answer { affected: 0, rows }
    }
}

fn optional_text(text: Option<&String>) -> (value: Value)
    ensures
        value == match text {
            Some(t) => Value::Text(*t),
            None => Value::Null,
        },
{
    match text {
        Some(t) => Value::Text(t.clone()),
        None => Value::Null,
    }
}

/// Creates `BATCH` unless it exists.
pub const CREATE_BATCH: &'static str =
    "CREATE TABLE IF NOT EXISTS BATCH (\
        [timestamp] INTEGER PRIMARY KEY NOT NULL, \
        [arguments] TEXT NOT NULL\
    )";

/// Creates `RESULT` unless it exists.
pub const CREATE_RESULT: &'static str =
    "CREATE TABLE IF NOT EXISTS RESULT (\
        [batch_id] INTEGER NOT NULL, \
        [input] TEXT NOT NULL, \
        [stdout] TEXT, \
        [stderr] TEXT, \
        [exit_code] INTEGER, \
        [error] TEXT\
    )";

/// Inserts one row into `BATCH`.
pub const INSERT_BATCH: &'static str = "INSERT INTO BATCH ([timestamp],[arguments]) VALUES (?,?)";

/// Inserts one row into `RESULT`.
pub const INSERT_RESULT: &'static str =
    "INSERT INTO RESULT ([batch_id],[input],[stdout],[stderr],[exit_code],[error]) \
    VALUES (?,?,?,?,?,?)";

/// Deletes the row of one batch from `BATCH`.
pub const DELETE_BATCH: &'static str = "DELETE FROM BATCH WHERE timestamp = ?";

/// Deletes the rows of one batch from `RESULT`.
pub const DELETE_RESULTS: &'static str = "DELETE FROM RESULT WHERE batch_id = ?";

/// Selects the row of one batch from `BATCH`.
pub const SELECT_BATCH: &'static str = "SELECT * FROM BATCH WHERE timestamp = ?";

/// Selects the rows of one batch from `RESULT`.
pub const SELECT_RESULTS: &'static str = "SELECT * FROM RESULT WHERE batch_id = ?";

impl Statement {
    /// The statement's text, with `?` for each bound value.
    pub open spec fn sql_text(self) -> Seq<char> {
        match self {
            Statement::CreateBatchTable => CREATE_BATCH@,
            Statement::CreateResultTable => CREATE_RESULT@,
            Statement::InsertBatch(_) => INSERT_BATCH@,
            Statement::InsertResult(_) => INSERT_RESULT@,
            Statement::DeleteBatch(_) => DELETE_BATCH@,
            Statement::DeleteResults(_) => DELETE_RESULTS@,
            Statement::SelectBatch(_) => SELECT_BATCH@,
            Statement::SelectResults(_) => SELECT_RESULTS@,
        }
    }

    /// The values bound to the placeholders, in their order.
    pub open spec fn bound(self) -> Seq<Value> {
        match self {
            Statement::CreateBatchTable => Seq::empty(),
            Statement::CreateResultTable => Seq::empty(),
            Statement::InsertBatch(row) => seq![
                Value::Integer(stored_key(row.timestamp) as i64),
                Value::Text(row.arguments),
            ],
            Statement::InsertResult(row) => seq![
                Value::Integer(stored_key(row.batch_id) as i64),
                Value::Text(row.input),
                match row.outcome {
                    Outcome::Success { stdout, .. } => Value::Text(stdout),
                    Outcome::Failure { .. } => Value::Null,
                },
                match row.outcome {
                    Outcome::Success { stderr, .. } => Value::Text(stderr),
                    Outcome::Failure { .. } => Value::Null,
                },
                match row.outcome {
                    Outcome::Success { exit_code: Some(code), .. } => Value::Integer(code as i64),
                    _ => Value::Null,
                },
                match row.outcome {
                    Outcome::Success { .. } => Value::Null,
                    Outcome::Failure { error } => Value::Text(error),
                },
            ],
            Statement::DeleteBatch(id) => seq![Value::Integer(stored_key(id) as i64)],
            Statement::DeleteResults(id) => seq![Value::Integer(stored_key(id) as i64)],
            Statement::SelectBatch(id) => seq![Value::Integer(stored_key(id) as i64)],
            Statement::SelectResults(id) => seq![Value::Integer(stored_key(id) as i64)],
        }
    }

    /// Whether the statement is a query, whose answer is its rows.
    pub open spec fn is_query(self) -> bool {
        self is SelectBatch || self is SelectResults
    }

    /// The statement's text, with `?` for each bound value.
    pub fn sql(&self) -> (text: &'static str)
        ensures
            text@ == self.sql_text(),
    {
        match self {
            Statement::CreateBatchTable => CREATE_BATCH,
            Statement::CreateResultTable => CREATE_RESULT,
            Statement::InsertBatch(_) => INSERT_BATCH,
            Statement::InsertResult(_) => INSERT_RESULT,
            Statement::DeleteBatch(_) => DELETE_BATCH,
            Statement::DeleteResults(_) => DELETE_RESULTS,
            Statement::SelectBatch(_) => SELECT_BATCH,
            Statement::SelectResults(_) => SELECT_RESULTS,
        }
    }

    /// The values to bind to the placeholders, in their order.
    pub fn params(&self) -> (values: Vec<Value>)
        ensures
            values@ == self.bound(),
    {
        let mut values: Vec<Value> = Vec::new();
        match self {
            Statement::CreateBatchTable => {},
            Statement::CreateResultTable => {},
            Statement::InsertBatch(row) => {
                values.push(Value::Integer(key(row.timestamp)));
                values.push(Value::Text(row.arguments.clone()));
            },
            Statement::InsertResult(row) => {
                values.push(Value::Integer(key(row.batch_id)));
                values.push(Value::Text(row.input.clone()));
                values.push(optional_text(row.outcome.stdout()));
                values.push(optional_text(row.outcome.stderr()));
                match row.outcome.exit_code() {
                    Some(code) => values.push(Value::Integer(code as i64)),
                    None => values.push(Value::Null),
                }
                values.push(optional_text(row.outcome.error()));
            },
            Statement::DeleteBatch(id) => {
                values.push(Value::Integer(key(*id)));
            },
            Statement::DeleteResults(id) => {
                values.push(Value::Integer(key(*id)));
            },
            Statement::SelectBatch(id) => {
                values.push(Value::Integer(key(*id)));
            },
            Statement::SelectResults(id) => {
                values.push(Value::Integer(key(*id)));
            },
        }
        assert(values@ =~= self.bound());
        values
    }

    /// Whether the statement is a query, whose answer is its rows.
    pub fn returns_rows(&self) -> (query: bool)
        ensures
            query == self.is_query(),
    {
        match self {
            Statement::SelectBatch(_) => true,
            Statement::SelectResults(_) => true,
            _ => false,
        }
    }
}

/// A result row is stored in exactly one of two shapes. A failure binds null
/// to `stdout`, `stderr` and `exit_code` and a text to `error`. A success
/// binds texts to `stdout` and `stderr` and null to `error`, and binds null
/// to `exit_code` only when the process ended without a code.
pub proof fn lemma_row_shape(row: ResultRow)
    ensures
        Statement::InsertResult(row).bound().len() == 6,
        row.cells().len() == 6,
        row.outcome.is_failure() != row.outcome.is_success(),
        row.outcome.is_failure() <==> !(Statement::InsertResult(row).bound()[5] is Null),
        row.outcome.is_failure() ==> Statement::InsertResult(row).bound()[2] is Null
            && Statement::InsertResult(row).bound()[3] is Null && Statement::InsertResult(
            row,
        ).bound()[4] is Null,
        row.outcome.is_success() ==> Statement::InsertResult(row).bound()[2] is Text
            && Statement::InsertResult(row).bound()[3] is Text,
        row.outcome.is_success() ==> (Statement::InsertResult(row).bound()[4] is Integer
            <==> row.outcome->exit_code is Some),
{
}

/// Two statements that the store runs as one unit: `probe` first, and `rest`
/// only if `probe` touched or returned a row.
#[derive(Debug, PartialEq, Eq)]
pub struct Transaction {
    pub probe: Statement,
    pub rest: Statement,
}

impl Transaction {
    /// Decides from the answer to `probe` whether the transaction goes on. It
    /// is abandoned as `NotFound` when the probe touched and returned nothing.
    pub fn found(first: &Answer) -> (verdict: Result<(), StoreError>)
        ensures
            verdict == if first@.found() {
                Ok::<(), StoreError>(())
            } else {
                Err::<(), StoreError>(StoreError::NotFound)
            },
    {
        if first.affected > 0 || first.rows.len() > 0 {
            Ok(())
        } else {
            Err(StoreError::NotFound)
        }
    }
}

} // verus!
