//! The rows of the two tables, as values and as the cells in which the store
//! hands them back.
//!
//! Every column is read back as bytes: an integer as its decimal digits, a
//! text as its UTF-8 bytes, and null as no bytes at all.

use crate::result::Row;
use crate::text::{decimal, decimal_bytes, lemma_bytes_deep_view};
use vstd::prelude::*;
use vstd::string::*;
use vstd::utf8::*;

verus! {

/// A row of `BATCH`: the identifier and the command line recorded with it.
#[derive(Debug, PartialEq, Eq)]
pub struct BatchRow {
    pub timestamp: u64,
    pub arguments: String,
}

/// The two shapes a recorded outcome can have. A row is a failure exactly when
/// the invocation could not be completed as an operating-system action; an
/// exit code other than zero is a success with that code.
#[derive(Debug, PartialEq, Eq)]
pub enum Outcome {
    Success { stdout: String, stderr: String, exit_code: Option<i32> },
    Failure { error: String },
}

/// A row of `RESULT`: the input record and what became of it.
#[derive(Debug, PartialEq, Eq)]
pub struct ResultRow {
    pub batch_id: u64,
    pub input: String,
    pub outcome: Outcome,
}

/// The integer under which an identifier is stored: its 64 bits read as a
/// signed number.
pub open spec fn stored_key(id: u64) -> int {
    if id <= i64::MAX {
        id as int
    } else {
        id - 0x1_0000_0000_0000_0000
    }
}

/// An identifier as the signed integer that the store keeps.
pub fn key(id: u64) -> (k: i64)
    ensures
        k == stored_key(id),
{
    if id <= 0x7fff_ffff_ffff_ffff {
        id as i64
    } else {
        (id - 0x8000_0000_0000_0000) as i64 + i64::MIN
    }
}

/// Distinct identifiers are stored under distinct integers.
pub proof fn lemma_key_injective(a: u64, b: u64)
    ensures
        stored_key(a) == stored_key(b) <==> a == b,
{
}

/// A text column's cell: the UTF-8 bytes of the text.
pub open spec fn text_cell(text: Seq<char>) -> Option<Seq<u8>> {
    Some(encode_utf8(text))
}

/// An integer column's cell: the integer in decimal.
pub open spec fn integer_cell(v: int) -> Option<Seq<u8>> {
    Some(decimal(v))
}

/// The cell of a column that is null: read as bytes, null is no bytes at all,
/// and so reads like an empty text.
pub open spec fn null_cell() -> Option<Seq<u8>> {
    Some(Seq::empty())
}

fn null_bytes() -> (cell: Option<Vec<u8>>)
    ensures
        cell.deep_view() == null_cell(),
{
    let bytes: Vec<u8> = Vec::new();
    proof {
        lemma_bytes_deep_view(bytes);
    }
    Some(bytes)
}

fn text_bytes(text: &String) -> (cell: Option<Vec<u8>>)
    ensures
        cell.deep_view() == text_cell(text@),
{
    let bytes = text.as_str().as_bytes_vec();
    proof {
        lemma_bytes_deep_view(bytes);
    }
    Some(bytes)
}

fn integer_bytes(v: i64) -> (cell: Option<Vec<u8>>)
    ensures
        cell.deep_view() == integer_cell(v as int),
{
    let bytes = decimal_bytes(v);
    proof {
        lemma_bytes_deep_view(bytes);
    }
    Some(bytes)
}

impl BatchRow {
    /// The row as the store returns it: `timestamp`, `arguments`.
    pub open spec fn cells(self) -> Seq<Option<Seq<u8>>> {
        seq![integer_cell(stored_key(self.timestamp)), text_cell(self.arguments@)]
    }

    /// The row as the store returns it.
    pub fn to_row(&self) -> (row: Row)
        ensures
            row@ == self.cells(),
    {
        let mut cells: Vec<Option<Vec<u8>>> = Vec::new();
        cells.push(integer_bytes(key(self.timestamp)));
        cells.push(text_bytes(&self.arguments));
        assert(cells.deep_view() =~= self.cells());
        Row { cells }
    }

    /// A second row with the same values.
    pub fn copy(&self) -> (row: BatchRow)
        ensures
            row == *self,
    {
        BatchRow { timestamp: self.timestamp, arguments: self.arguments.clone() }
    }
}

impl Outcome {
    /// Whether the invocation ran to its end.
    pub open spec fn is_success(self) -> bool {
        self is Success
    }

    /// Whether the operating system refused the invocation.
    pub open spec fn is_failure(self) -> bool {
        self is Failure
    }

    /// The `stdout` column as it is read back.
    pub open spec fn stdout_cell(self) -> Option<Seq<u8>> {
        match self {
            Outcome::Success { stdout, .. } => text_cell(stdout@),
            Outcome::Failure { .. } => null_cell(),
        }
    }

    /// The `stderr` column as it is read back.
    pub open spec fn stderr_cell(self) -> Option<Seq<u8>> {
        match self {
            Outcome::Success { stderr, .. } => text_cell(stderr@),
            Outcome::Failure { .. } => null_cell(),
        }
    }

    /// The `exit_code` column as it is read back.
    pub open spec fn exit_code_cell(self) -> Option<Seq<u8>> {
        match self {
            Outcome::Success { exit_code: Some(code), .. } => integer_cell(code as int),
            _ => null_cell(),
        }
    }

    /// The `error` column as it is read back.
    pub open spec fn error_cell(self) -> Option<Seq<u8>> {
        match self {
            Outcome::Success { .. } => null_cell(),
            Outcome::Failure { error } => text_cell(error@),
        }
    }

    /// A second outcome with the same values.
    pub fn copy(&self) -> (outcome: Outcome)
        ensures
            outcome == *self,
    {
        match self {
            Outcome::Success { stdout, stderr, exit_code } => Outcome::Success {
                stdout: stdout.clone(),
                stderr: stderr.clone(),
                exit_code: *exit_code,
            },
            Outcome::Failure { error } => Outcome::Failure { error: error.clone() },
        }
    }
}

impl ResultRow {
    /// The row as the store returns it: `batch_id`, `input`, `stdout`,
    /// `stderr`, `exit_code`, `error`.
    pub open spec fn cells(self) -> Seq<Option<Seq<u8>>> {
        seq![
            integer_cell(stored_key(self.batch_id)),
            text_cell(self.input@),
            self.outcome.stdout_cell(),
            self.outcome.stderr_cell(),
            self.outcome.exit_code_cell(),
            self.outcome.error_cell(),
        ]
    }

    /// The row as the store returns it.
    pub fn to_row(&self) -> (row: Row)
        ensures
            row@ == self.cells(),
    {
        let mut cells: Vec<Option<Vec<u8>>> = Vec::new();
        cells.push(integer_bytes(key(self.batch_id)));
        cells.push(text_bytes(&self.input));
        match &self.outcome {
            Outcome::Success { stdout, stderr, exit_code } => {
                cells.push(text_bytes(stdout));
                cells.push(text_bytes(stderr));
                match exit_code {
                    Some(code) => cells.push(integer_bytes(*code as i64)),
                    None => cells.push(null_bytes()),
                }
                cells.push(null_bytes());
            },
            Outcome::Failure { error } => {
                cells.push(null_bytes());
                cells.push(null_bytes());
                cells.push(null_bytes());
                cells.push(text_bytes(error));
            },
        }
        assert(cells.deep_view() =~= self.cells());
        Row { cells }
    }

    /// A second row with the same values.
    pub fn copy(&self) -> (row: ResultRow)
        ensures
            row == *self,
    {
        ResultRow {
            batch_id: self.batch_id,
            input: self.input.clone(),
            outcome: self.outcome.copy(),
        }
    }
}

impl Outcome {
    /// The `stdout` column: the captured text of a success, else null.
    pub fn stdout(&self) -> (text: Option<&String>)
        ensures
            text == match *self {
                Outcome::Success { stdout, .. } => Some(&stdout),
                Outcome::Failure { .. } => None,
            },
    {
        match self {
            Outcome::Success { stdout, .. } => Some(stdout),
            Outcome::Failure { .. } => None,
        }
    }

    /// The `stderr` column: the captured text of a success, else null.
    pub fn stderr(&self) -> (text: Option<&String>)
        ensures
            text == match *self {
                Outcome::Success { stderr, .. } => Some(&stderr),
                Outcome::Failure { .. } => None,
            },
    {
        match self {
            Outcome::Success { stderr, .. } => Some(stderr),
            Outcome::Failure { .. } => None,
        }
    }

    /// The `exit_code` column: the code of a success that has one, else null.
    pub fn exit_code(&self) -> (code: Option<i32>)
        ensures
            code == match *self {
                Outcome::Success { exit_code, .. } => exit_code,
                Outcome::Failure { .. } => None,
            },
    {
        match self {
            Outcome::Success { exit_code, .. } => *exit_code,
            Outcome::Failure { .. } => None,
        }
    }

    /// The `error` column: the message of a failure, else null.
    pub fn error(&self) -> (text: Option<&String>)
        ensures
            text == match *self {
                Outcome::Success { .. } => None,
                Outcome::Failure { error } => Some(&error),
            },
    {
        match self {
            Outcome::Success { .. } => None,
            Outcome::Failure { error } => Some(error),
        }
    }
}

} // verus!
