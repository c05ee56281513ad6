//! The command surface: what each command asks for, as a task that the
//! program around this library carries out.

use crate::batch::{clear, show};
use crate::executor::Executor;
use crate::statement::{Statement, Transaction};
use crate::text::{split, split_on};
use vstd::prelude::*;
use vstd::string::*;

verus! {

/// The commands of the program.
#[derive(Debug, PartialEq, Eq)]
pub enum Commands {
    /// Creates a batch for `program` run with `args`.
    New { program: String, args: String },
    /// Feeds the lines of standard input to `program` under batch `id`.
    Monitor { id: u64, program: String, args: String },
    /// Prints the rows of `table` in the database file `db`.
    Stream { db: String, table: String },
    /// Deletes batch `id` with its results.
    Clear { id: u64 },
    /// Prints batch `id` with its results.
    Show { id: u64 },
    /// Echoes standard input, refusing lines that `fake` refuses.
    Fake,
}

/// One invocation of the program.
#[derive(Debug, PartialEq, Eq)]
pub struct Cli {
    pub command: Commands,
}

/// What the program has to do for a command.
#[derive(Debug, PartialEq, Eq)]
pub enum Task {
    /// Record a fresh batch with `arguments` as its command line, and print
    /// the batch's identifier.
    Create { exe: Executor, arguments: String },
    /// Attach to batch `id` if `probe` finds it, and run the monitor pipeline
    /// over standard input.
    Monitor { id: u64, exe: Executor, probe: Statement },
    /// Run `query`, which reads all of `table`, on the database file `db` and
    /// print each row as a line.
    Stream { db: String, table: String, query: String },
    /// Run the transaction that clears a batch.
    Clear(Transaction),
    /// Run the transaction that reads a batch, and print the report.
    Show(Transaction),
    /// Echo standard input through `fake`.
    Fake,
}

/// The command line as it is recorded with a batch: the program, a space,
/// and the argument text.
pub open spec fn command_text(program: Seq<char>, args: Seq<char>) -> Seq<char> {
    program + " "@ + args
}

/// The query that reads every row of `table` with its row number.
pub open spec fn select_all_text(table: Seq<char>) -> Seq<char> {
    "SELECT ROWID, * FROM "@ + table
}

/// The command template for `program` with the argument text `args`: the
/// arguments are the pieces of `args` between single spaces.
pub fn command(program: &str, args: &str) -> (exe: Executor)
    ensures
        exe.program_view() == program@,
        exe.args_view() == split_on(args@, ' '),
{
    Executor::new(program.to_owned(), split(args, ' '))
}

/// The query text for reading a whole table.
pub fn select_all_query(table: &str) -> (query: String)
    ensures
        query@ == select_all_text(table@),
{
    let mut query = String::from_str("SELECT ROWID, * FROM ");
    query.append(table);
    query
}

impl Cli {
    /// Turns the command into its task.
    pub fn run(self) -> (task: Task)
        ensures
            match self.command {
                Commands::New { program, args } => task matches Task::Create { exe, arguments }
                    && exe.program_view() == program@ && exe.args_view() == split_on(args@, ' ')
                    && arguments@ == command_text(program@, args@),
                Commands::Monitor { id, program, args } => task matches Task::Monitor {
                    id: task_id,
                    exe,
                    probe,
                } && task_id == id && exe.program_view() == program@ && exe.args_view()
                    == split_on(args@, ' ') && probe == Statement::SelectBatch(id),
                Commands::Stream { db, table } => task matches Task::Stream {
                    db: file,
                    table: name,
                    query,
                } && file == db && name == table && query@ == select_all_text(table@),
                Commands::Clear { id } => task matches Task::Clear(transaction) && transaction
                    == (Transaction {
                    probe: Statement::DeleteBatch(id),
                    rest: Statement::DeleteResults(id),
                }),
                Commands::Show { id } => task matches Task::Show(transaction) && transaction
                    == (Transaction {
                    probe: Statement::SelectBatch(id),
                    rest: Statement::SelectResults(id),
                }),
                Commands::Fake => task is Fake,
            },
    {
        match self.command {
            Commands::New { program, args } => {
                let exe = command(program.as_str(), args.as_str());
                let mut arguments = program;
                arguments.append(" ");
                arguments.append(args.as_str());
                Task::Create { exe, arguments }
            },
            Commands::Monitor { id, program, args } => {
                let exe = command(program.as_str(), args.as_str());
                Task::Monitor { id, exe, probe: Statement::SelectBatch(id) }
            },
            Commands::Stream { db, table } => {
                let query = select_all_query(table.as_str());
                Task::Stream { db, table, query }
            },
            Commands::Clear { id } => Task::Clear(clear(id)),
            Commands::Show { id } => Task::Show(show(id)),
            Commands::Fake => Task::Fake,
        }
    }
}

/// Whether one of `fields` is the text `word`.
pub open spec fn names(fields: Seq<Seq<char>>, word: Seq<char>) -> bool {
    exists|i: int| 0 <= i < fields.len() && #[trigger] fields[i] == word
}

/// Whether the echo command passes `line` on: it refuses a line of which
/// one comma-separated field is exactly `amazon`.
pub fn fake(line: &str) -> (passed: bool)
    ensures
        passed == !names(split_on(line@, ','), "amazon"@),
{
    let fields = split(line, ',');
    let word = String::from_str("amazon");
    let mut i: usize = 0;
    while i < fields.len()
        invariant
            i <= fields.len(),
            word@ == "amazon"@,
            fields.deep_view() == split_on(line@, ','),
            forall|k: int| 0 <= k < i ==> (#[trigger] fields.deep_view()[k]) != word@,
        decreases fields.len() - i,
    {
        assert(fields.deep_view()[i as int] == fields[i as int]@);
        if fields[i] == word {
            return false;
        }
        i += 1;
    }
    true
}

/// The text that pretty debug formatting gives for a string: the string in
/// double quotes, with quotes, backslashes and control characters escaped.
pub uninterp spec fn debug_text(text: Seq<char>) -> Seq<char>;

/// The `Debug` formatting of `str` in its alternate form, as `format!`
/// writes it for `{:#?}`. The result depends on the text alone.
#[verifier::external_body]
fn quoted(text: &str) -> (out: String)
    ensures
        out@ == debug_text(text@),
{
    format!("{:#?}", text)
}

/// Each entry followed by a line feed, in order.
pub open spec fn listed(entries: Seq<Seq<char>>) -> Seq<char>
    decreases entries.len(),
{
    if entries.len() == 0 {
        Seq::empty()
    } else {
        listed(entries.drop_last()) + entries.last() + "\n"@
    }
}

/// A report as it is printed: two empty lines, the header behind `BATCH: `,
/// an empty line, one line per entry, and three empty lines.
pub open spec fn framed(header: Seq<char>, entries: Seq<Seq<char>>) -> Seq<char> {
    "\n\nBATCH: "@ + header + "\n\n"@ + listed(entries) + "\n\n\n"@
}

/// Lays out a report for printing, taking each entry as it is.
pub fn frame(header: &str, entries: &Vec<String>) -> (out: String)
    ensures
        out@ == framed(header@, entries.deep_view()),
{
    let mut out = String::from_str("\n\nBATCH: ");
    out.append(header);
    out.append("\n\n");
    let ghost top = out@;
    let mut i: usize = 0;
    assert(entries.deep_view().take(0) =~= Seq::<Seq<char>>::empty());
    assert(out@ =~= top + listed(entries.deep_view().take(0)));
    while i < entries.len()
        invariant
            i <= entries.len(),
            out@ == top + listed(entries.deep_view().take(i as int)),
        decreases entries.len() - i,
    {
        let ghost done = entries.deep_view().take(i as int);
        let ghost more = entries.deep_view().take(i + 1);
        assert(more.drop_last() =~= done);
        assert(more.last() == entries[i as int]@);
        out.append(entries[i].as_str());
        out.append("\n");
        assert(out@ =~= top + listed(more));
        i += 1;
    }
    assert(entries.deep_view().take(entries.len() as int) =~= entries.deep_view());
    out.append("\n\n\n");
    out
}

/// The text that showing a batch prints: the header, then every result line
/// in debug form.
pub fn show_output(header: &str, lines: &Vec<String>) -> (out: String)
    ensures
        out@ == framed(header@, lines.deep_view().map_values(|line: Seq<char>| debug_text(line))),
{
    let mut entries: Vec<String> = Vec::new();
    let mut i: usize = 0;
    while i < lines.len()
        invariant
            i <= lines.len(),
            entries.len() == i,
            forall|k: int| 0 <= k < i ==> (#[trigger] entries[k])@ == debug_text(lines[k]@),
        decreases lines.len() - i,
    {
        entries.push(quoted(lines[i].as_str()));
        i += 1;
    }
    assert(entries.deep_view() =~= lines.deep_view().map_values(
        |line: Seq<char>| debug_text(line),
    ));
    frame(header, &entries)
}

} // verus!
