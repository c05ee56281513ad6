use xbatch::batch::{
    attach, clear, insert_batch_record, new, report, run_in_order, setup, show, unix_now, Batch,
};
use xbatch::executor::{settle, Executor, ExecutorError, IOError, OsError, Output};
use xbatch::rows::{BatchRow, Outcome, ResultRow};
use xbatch::statement::{Answer, Statement, StoreError, Transaction, Value};
use xbatch::store::Store;

fn echo() -> Executor {
    Executor::new("echo".to_string(), Vec::new())
}

fn ran(stdout: &str) -> Result<Output, ExecutorError> {
    Ok(Output { stdout: stdout.as_bytes().to_vec(), stderr: Vec::new(), code: Some(0) })
}

fn store_with(id: u64, inputs: &[&str]) -> Store {
    let batch = Batch::new(id, echo());
    let mut store = Store::new();
    for statement in setup() {
        store.execute(statement).unwrap();
    }
    store.execute(batch.record("echo ")).unwrap();
    for input in inputs {
        store.execute(batch.run(input.to_string(), ran(input))).unwrap();
    }
    store
}

fn shown(store: &mut Store, id: u64) -> Result<(String, Vec<String>), StoreError> {
    match store.transact(show(id)) {
        Ok((found, results)) => report(found, results),
        Err(e) => Err(e),
    }
}

#[test]
fn unix_now_is_after_the_year_2020() {
    assert!(unix_now().unwrap() > 1_577_836_800);
}

#[test]
fn setup_creates_both_tables() {
    assert_eq!(setup(), vec![Statement::CreateBatchTable, Statement::CreateResultTable]);
}

#[test]
fn insert_batch_record_builds_the_batch_row() {
    assert_eq!(
        insert_batch_record(17, "echo hi"),
        Statement::InsertBatch(BatchRow { timestamp: 17, arguments: "echo hi".to_string() })
    );
}

#[test]
fn new_with_an_identifier_attaches_to_it() {
    let batch = new(Some(42), echo()).unwrap();
    assert_eq!(batch.timestamp(), 42);
    assert_eq!(batch.executor(), &echo());
}

#[test]
fn new_without_an_identifier_takes_the_time() {
    let before = unix_now().unwrap();
    let batch = new(None, echo()).unwrap();
    let after = unix_now().unwrap();
    assert!(before <= batch.timestamp() && batch.timestamp() <= after);
    assert_eq!(batch.executor(), &echo());
}

#[test]
fn record_keeps_the_command_line() {
    let batch = Batch::new(9, echo());
    assert_eq!(
        batch.record("echo -n x"),
        Statement::InsertBatch(BatchRow { timestamp: 9, arguments: "echo -n x".to_string() })
    );
}

#[test]
fn run_records_a_success_with_decoded_output() {
    let batch = Batch::new(9, echo());
    let outcome =
        Ok(Output { stdout: vec![0x6f, 0xff], stderr: "wärn".as_bytes().to_vec(), code: Some(2) });
    assert_eq!(
        batch.run("in".to_string(), outcome),
        Statement::InsertResult(ResultRow {
            batch_id: 9,
            input: "in".to_string(),
            outcome: Outcome::Success {
                stdout: "o\u{fffd}".to_string(),
                stderr: "wärn".to_string(),
                exit_code: Some(2),
            },
        })
    );
}

#[test]
fn run_records_a_killed_process_as_success_without_code() {
    let batch = Batch::new(9, echo());
    let outcome = Ok(Output { stdout: Vec::new(), stderr: Vec::new(), code: None });
    let Statement::InsertResult(row) = batch.run("in".to_string(), outcome) else {
        panic!("not an insert");
    };
    assert_eq!(
        row.outcome,
        Outcome::Success { stdout: String::new(), stderr: String::new(), exit_code: None }
    );
}

#[test]
fn run_records_a_refusal_as_failure() {
    let batch = Batch::new(9, echo());
    let refused = ExecutorError::IO(IOError::WriteToStdin(OsError {
        code: Some(32),
        message: "Broken pipe".to_string(),
    }));
    assert_eq!(
        batch.run("in".to_string(), Err(refused)),
        Statement::InsertResult(ResultRow {
            batch_id: 9,
            input: "in".to_string(),
            outcome: Outcome::Failure { error: "io: WriteToStdin(Broken pipe)".to_string() },
        })
    );
}

#[test]
fn write_appends_the_row_it_is_given() {
    let batch = Batch::new(3, echo());
    let outcome = Outcome::Failure { error: "e".to_string() };
    assert_eq!(
        batch.write("r", outcome),
        Statement::InsertResult(ResultRow {
            batch_id: 3,
            input: "r".to_string(),
            outcome: Outcome::Failure { error: "e".to_string() },
        })
    );
}

#[test]
fn clear_and_show_probe_the_batch_row_first() {
    assert_eq!(
        clear(5),
        Transaction { probe: Statement::DeleteBatch(5), rest: Statement::DeleteResults(5) }
    );
    assert_eq!(
        show(5),
        Transaction { probe: Statement::SelectBatch(5), rest: Statement::SelectResults(5) }
    );
}

#[test]
fn echo_batch_records_three_successes_in_input_order() {
    let batch = Batch::new(1_700_000_000, echo());
    let mut store = Store::new();
    store.execute(batch.record("echo ")).unwrap();
    for input in ["a", "b", "c"] {
        let launch = batch.executor().run(input);
        assert_eq!(launch.program, "echo");
        let exited = Output { stdout: b"\n".to_vec(), stderr: Vec::new(), code: Some(0) };
        let outcome = settle(launch, Ok(()), Ok(()), Ok(exited));
        store.execute(batch.run(input.to_string(), outcome)).unwrap();
    }
    let rows = store.results();
    assert_eq!(rows.len(), 3);
    for (row, input) in rows.iter().zip(["a", "b", "c"]) {
        assert_eq!(row.batch_id, 1_700_000_000);
        assert_eq!(row.input, input);
        assert_eq!(row.outcome.exit_code(), Some(0));
        assert_eq!(row.outcome.stdout(), Some(&"\n".to_string()));
        assert_eq!(row.outcome.stderr(), Some(&String::new()));
        assert_eq!(row.outcome.error(), None);
    }
}

#[test]
fn missing_executable_records_one_failure_row() {
    let batch = Batch::new(8, Executor::new("no-such-program".to_string(), Vec::new()));
    let mut store = Store::new();
    store.execute(batch.record("no-such-program ")).unwrap();
    let launch = batch.executor().run("a");
    let refused = OsError { code: Some(2), message: "No such file or directory".to_string() };
    let outcome = match launch.spawned(Err(refused)) {
        Ok(_) => panic!("the spawn was refused"),
        Err(e) => Err(e),
    };
    store.execute(batch.run("a".to_string(), outcome)).unwrap();
    let rows = store.results();
    assert_eq!(rows.len(), 1);
    assert_eq!(
        rows[0].outcome.error(),
        Some(&"io: ChildProcess(No such file or directory)".to_string())
    );
    assert_eq!(rows[0].outcome.stdout(), None);
    assert_eq!(rows[0].outcome.stderr(), None);
    assert_eq!(rows[0].outcome.exit_code(), None);
    let bound = Statement::InsertResult(rows[0].copy()).params();
    assert_eq!(bound[2], Value::Null);
    assert_eq!(bound[3], Value::Null);
    assert_eq!(bound[4], Value::Null);
    assert_eq!(bound[5], Value::Text("io: ChildProcess(No such file or directory)".to_string()));
}

#[test]
fn clear_removes_the_batch_and_its_five_rows() {
    let mut store = store_with(42, &["1", "2", "3", "4", "5"]);
    let other = Batch::new(43, echo());
    store.execute(other.record("echo ")).unwrap();
    store.execute(other.run("keep".to_string(), ran("keep"))).unwrap();
    assert_eq!(store.results().len(), 6);
    let answers = store.transact(clear(42)).unwrap();
    assert_eq!(answers, (Answer::changed(1), Answer::changed(5)));
    assert_eq!(store.batches().len(), 1);
    assert_eq!(store.batches()[0].timestamp, 43);
    assert_eq!(store.results().len(), 1);
    assert_eq!(store.results()[0].input, "keep");
    assert_eq!(shown(&mut store, 42), Err(StoreError::NotFound));
    assert!(shown(&mut store, 43).is_ok());
}

#[test]
fn clear_of_a_missing_batch_is_not_found_and_changes_nothing() {
    let mut store = store_with(1, &["a"]);
    assert_eq!(store.transact(clear(2)), Err(StoreError::NotFound));
    assert_eq!(store.batches().len(), 1);
    assert_eq!(store.results().len(), 1);
    assert_eq!(shown(&mut store, 2), Err(StoreError::NotFound));
}

#[test]
fn clear_without_a_batch_row_leaves_orphan_results() {
    let mut store = Store::new();
    let batch = Batch::new(5, echo());
    store.execute(batch.run("a".to_string(), ran("a"))).unwrap();
    assert_eq!(store.transact(clear(5)), Err(StoreError::NotFound));
    assert_eq!(store.results().len(), 1);
}

#[test]
fn show_renders_header_and_lines() {
    let mut store = store_with(7, &["a", "b"]);
    let batch = Batch::new(7, echo());
    let refused = ExecutorError::IO(IOError::ChildProcess(OsError {
        code: None,
        message: "gone".to_string(),
    }));
    store.execute(batch.run("c".to_string(), Err(refused))).unwrap();
    let (header, lines) = shown(&mut store, 7).unwrap();
    assert_eq!(header, "7,echo ");
    assert_eq!(lines, vec!["7,a,a,,0,", "7,b,b,,0,", "7,c,,,,io: ChildProcess(gone)"]);
}

#[test]
fn show_twice_gives_the_same_report() {
    let mut store = store_with(7, &["a", "b"]);
    let first = shown(&mut store, 7);
    let second = shown(&mut store, 7);
    assert!(first.is_ok());
    assert_eq!(first, second);
    assert_eq!(store.batches(), store_with(7, &["a", "b"]).batches());
    assert_eq!(store.results(), store_with(7, &["a", "b"]).results());
}

#[test]
fn show_of_a_batch_without_results_has_no_lines() {
    let mut store = store_with(7, &[]);
    assert_eq!(shown(&mut store, 7), Ok(("7,echo ".to_string(), Vec::new())));
}

#[test]
fn report_without_a_batch_row_is_not_found() {
    assert_eq!(
        report(Answer::selected(Vec::new()), Answer::selected(Vec::new())),
        Err(StoreError::NotFound)
    );
}

#[test]
fn each_run_adds_one_row_to_its_batch_only() {
    let mut store = store_with(1, &["a"]);
    let other = Batch::new(2, echo());
    store.execute(other.record("echo ")).unwrap();
    for n in 0..4 {
        store.execute(other.run(n.to_string(), ran("x"))).unwrap();
        let mine = store.results().iter().filter(|r| r.batch_id == 2).count();
        let theirs = store.results().iter().filter(|r| r.batch_id == 1).count();
        assert_eq!(mine, n + 1);
        assert_eq!(theirs, 1);
    }
}

#[test]
fn attach_needs_the_batch_row() {
    let mut store = store_with(7, &["a"]);
    let found = store.execute(Statement::SelectBatch(7)).unwrap();
    let batch = attach(7, echo(), &found).unwrap();
    assert_eq!(batch.timestamp(), 7);
    assert_eq!(batch.executor(), &echo());
    let missing = store.execute(Statement::SelectBatch(8)).unwrap();
    assert_eq!(attach(8, echo(), &missing), Err(StoreError::NotFound));
    assert_eq!(store.batches().len(), 1);
}

#[test]
fn batch_mode_records_in_input_order_behind_earlier_rows() {
    let mut store = store_with(3, &["old"]);
    let batch = Batch::new(3, echo());
    let refused = ExecutorError::IO(IOError::WaitForOutput(OsError {
        code: Some(10),
        message: "No child processes".to_string(),
    }));
    let items = vec![
        ("r1".to_string(), ran("1")),
        ("r2".to_string(), Err(refused)),
        ("r3".to_string(), ran("3")),
    ];
    run_in_order(&batch, &mut store, items);
    let inputs: Vec<&str> = store.results().iter().map(|r| r.input.as_str()).collect();
    assert_eq!(inputs, vec!["old", "r1", "r2", "r3"]);
    assert_eq!(store.results()[1].outcome.stdout(), Some(&"1".to_string()));
    assert_eq!(
        store.results()[2].outcome.error(),
        Some(&"io: WaitForOutput(No child processes)".to_string())
    );
    assert_eq!(store.results()[3].outcome.exit_code(), Some(0));
    assert_eq!(store.batches().len(), 1);
}

#[test]
fn batch_mode_without_items_changes_nothing() {
    let mut store = store_with(3, &["old"]);
    run_in_order(&Batch::new(3, echo()), &mut store, Vec::new());
    assert_eq!(store.results().len(), 1);
}
