//! The command executor: one child process per input record.
//!
//! Creating the process, feeding it and waiting for it are operating-system
//! actions that the caller performs. This module holds the command template,
//! the order of those actions, and the rule that turns what the operating
//! system reported into the outcome of the invocation. A non-zero or missing
//! exit code is data, not an error.

use vstd::prelude::*;
use vstd::string::*;

verus! {

/// What the operating system reported when an action failed.
#[derive(Debug, PartialEq, Eq)]
pub struct OsError {
    /// The raw error number, where the system gave one.
    pub code: Option<i32>,
    /// The system's description of the failure.
    pub message: String,
}

/// The action of an invocation that the operating system refused.
#[derive(Debug, PartialEq, Eq)]
pub enum IOError {
    /// The child process could not be created.
    ChildProcess(OsError),
    /// The record could not be written to the child's standard input.
    WriteToStdin(OsError),
    /// Waiting for the child to terminate failed.
    WaitForOutput(OsError),
}

/// Why an invocation produced no output at all.
#[derive(Debug, PartialEq, Eq)]
pub enum ExecutorError {
    IO(IOError),
}

/// What a terminated child left behind.
#[derive(Debug, PartialEq, Eq)]
pub struct Output {
    pub stdout: Vec<u8>,
    pub stderr: Vec<u8>,
    /// The exit code; `None` when a signal ended the process.
    pub code: Option<i32>,
}

impl IOError {
    /// The system error that the variant carries.
    pub open spec fn cause(self) -> OsError {
        match self {
            IOError::ChildProcess(e) => e,
            IOError::WriteToStdin(e) => e,
            IOError::WaitForOutput(e) => e,
        }
    }

    /// The variant's name, as it opens the error text.
    pub open spec fn label(self) -> Seq<char> {
        match self {
            IOError::ChildProcess(_) => "ChildProcess"@,
            IOError::WriteToStdin(_) => "WriteToStdin"@,
            IOError::WaitForOutput(_) => "WaitForOutput"@,
        }
    }
}

impl ExecutorError {
    /// The text recorded for a failed invocation: `io: `, the name of the
    /// refused action, and the system's description in parentheses.
    pub open spec fn text(self) -> Seq<char> {
        match self {
            ExecutorError::IO(e) => "io: "@ + e.label() + "("@ + e.cause().message@ + ")"@,
        }
    }

    /// Renders the error as the text that is recorded with the input.
    pub fn message(&self) -> (out: String)
        ensures
            out@ == self.text(),
    {
        let mut out = String::from_str("io: ");
        match self {
            ExecutorError::IO(e) => {
                match e {
                    IOError::ChildProcess(os) => {
                        out.append("ChildProcess");
                        out.append("(");
                        out.append(os.message.as_str());
                    },
                    IOError::WriteToStdin(os) => {
                        out.append("WriteToStdin");
                        out.append("(");
                        out.append(os.message.as_str());
                    },
                    IOError::WaitForOutput(os) => {
                        out.append("WaitForOutput");
                        out.append("(");
                        out.append(os.message.as_str());
                    },
                }
            },
        }
        out.append(")");
        out
    }
}

/// The command template: a program and its fixed arguments.
#[derive(Debug, PartialEq, Eq)]
pub struct Executor {
    program: String,
    args: Vec<String>,
}

/// First action of an invocation: create the child from `program` and `args`
/// with its three standard streams piped.
#[derive(Debug, PartialEq, Eq)]
pub struct Launch {
    pub program: String,
    pub args: Vec<String>,
    /// The record's bytes, to be written once the child exists.
    pub input: Vec<u8>,
}

/// Second action: write `input` to the child's standard input and close it.
#[derive(Debug, PartialEq, Eq)]
pub struct Feed {
    pub input: Vec<u8>,
}

/// Third action: wait for the child to terminate and collect its output.
#[derive(Debug, PartialEq, Eq)]
pub struct Await {}

impl Executor {
    /// The program's name.
    pub closed spec fn program_view(&self) -> Seq<char> {
        self.program@
    }

    /// The fixed arguments, in order.
    pub closed spec fn args_view(&self) -> Seq<Seq<char>> {
        self.args.deep_view()
    }

    /// The template that runs `program` with `args`.
    pub fn new(program: String, args: Vec<String>) -> (exe: Executor)
        ensures
            exe.program_view() == program@,
            exe.args_view() == args.deep_view(),
    {
        Executor { program, args }
    }

    /// The program's name.
    pub fn program(&self) -> (program: &String)
        ensures
            program@ == self.program_view(),
    {
        &self.program
    }

    /// The fixed arguments, in order.
    pub fn args(&self) -> (args: &Vec<String>)
        ensures
            args.deep_view() == self.args_view(),
    {
        &self.args
    }

    /// Opens an invocation for one record: the child is to be created from the
    /// template and will be fed the record's bytes.
    pub fn run(&self, row: &str) -> (launch: Launch)
        ensures
            launch.program@ == self.program_view(),
            launch.args.deep_view() == self.args_view(),
            launch.input@ == row.spec_bytes(),
    {
        let args = self.args.clone();
        assert(args.deep_view() =~= self.args.deep_view());
        Launch { program: self.program.clone(), args, input: row.as_bytes_vec() }
    }
}

impl Launch {
    /// Takes the result of creating the child. A failure ends the invocation
    /// as `ChildProcess`; otherwise the record is to be written next.
    pub fn spawned(self, report: Result<(), OsError>) -> (next: Result<Feed, ExecutorError>)
        ensures
            match report {
                Ok(_) => next matches Ok(feed) && feed.input@ == self.input@,
                Err(e) => next == Err::<Feed, ExecutorError>(
                    ExecutorError::IO(IOError::ChildProcess(e)),
                ),
            },
    {
        match report {
            Ok(_) => Ok(Feed { input: self.input }),
            Err(e) => Err(ExecutorError::IO(IOError::ChildProcess(e))),
        }
    }
}

impl Feed {
    /// Takes the result of writing the record. A failure ends the invocation
    /// as `WriteToStdin`; otherwise the child is to be waited for.
    pub fn written(self, report: Result<(), OsError>) -> (next: Result<Await, ExecutorError>)
        ensures
            match report {
                Ok(_) => next is Ok,
                Err(e) => next == Err::<Await, ExecutorError>(
                    ExecutorError::IO(IOError::WriteToStdin(e)),
                ),
            },
    {
        match report {
            Ok(_) => Ok(Await {  }),
            Err(e) => Err(ExecutorError::IO(IOError::WriteToStdin(e))),
        }
    }
}

impl Await {
    /// Takes the result of waiting. A failure ends the invocation as
    /// `WaitForOutput`; otherwise the captured output is the outcome, whatever
    /// its exit code.
    pub fn exited(self, report: Result<Output, OsError>) -> (outcome: Result<Output, ExecutorError>)
        ensures
            outcome == settled(Ok(()), Ok(()), report),
    {
        match report {
            Ok(output) => Ok(output),
            Err(e) => Err(ExecutorError::IO(IOError::WaitForOutput(e))),
        }
    }
}

/// The outcome of an invocation whose three actions would be answered by
/// `spawn`, `write` and `wait`: the first refusal decides, and later answers
/// are never asked for.
pub open spec fn settled(
    spawn: Result<(), OsError>,
    write: Result<(), OsError>,
    wait: Result<Output, OsError>,
) -> Result<Output, ExecutorError> {
    match spawn {
        Err(e) => Err(ExecutorError::IO(IOError::ChildProcess(e))),
        Ok(_) => match write {
            Err(e) => Err(ExecutorError::IO(IOError::WriteToStdin(e))),
            Ok(_) => match wait {
                Err(e) => Err(ExecutorError::IO(IOError::WaitForOutput(e))),
                Ok(output) => Ok(output),
            },
        },
    }
}

/// Runs the three stages of `launch` against the answers that the operating
/// system would give, asking for none after the first refusal.
pub fn settle(
    launch: Launch,
    spawn: Result<(), OsError>,
    write: Result<(), OsError>,
    wait: Result<Output, OsError>,
) -> (outcome: Result<Output, ExecutorError>)
    ensures
        outcome == settled(spawn, write, wait),
{
    match launch.spawned(spawn) {
        Err(e) => Err(e),
        Ok(feed) => match feed.written(write) {
            Err(e) => Err(e),
            Ok(pending) => pending.exited(wait),
        },
    }
}

/// An invocation ends in exactly one of two ways. It yields the child's
/// output precisely when all three actions succeeded, and that output is the
/// one the wait collected, with any exit code. Otherwise it yields the error
/// of the first action that was refused, and no output.
pub proof fn lemma_one_outcome(
    spawn: Result<(), OsError>,
    write: Result<(), OsError>,
    wait: Result<Output, OsError>,
)
    ensures
        settled(spawn, write, wait) is Ok != settled(spawn, write, wait) is Err,
        settled(spawn, write, wait) is Ok <==> spawn is Ok && write is Ok && wait is Ok,
        settled(spawn, write, wait) is Ok ==> settled(spawn, write, wait) == Ok::<
            Output,
            ExecutorError,
        >(wait->Ok_0),
        spawn is Err ==> settled(spawn, write, wait) == Err::<Output, ExecutorError>(
            ExecutorError::IO(IOError::ChildProcess(spawn->Err_0)),
        ),
        spawn is Ok && write is Err ==> settled(spawn, write, wait) == Err::<
            Output,
            ExecutorError,
        >(ExecutorError::IO(IOError::WriteToStdin(write->Err_0))),
        spawn is Ok && write is Ok && wait is Err ==> settled(spawn, write, wait) == Err::<
            Output,
            ExecutorError,
        >(ExecutorError::IO(IOError::WaitForOutput(wait->Err_0))),
{
}

} // verus!
