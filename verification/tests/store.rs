use xbatch::result::Row;
use xbatch::rows::{key, BatchRow, Outcome, ResultRow};
use xbatch::statement::{Answer, Statement, StoreError, Transaction, Value};
use xbatch::store::Store;

fn batch(id: u64, arguments: &str) -> BatchRow {
    BatchRow { timestamp: id, arguments: arguments.to_string() }
}

fn success(id: u64, input: &str, stdout: &str, code: Option<i32>) -> ResultRow {
    ResultRow {
        batch_id: id,
        input: input.to_string(),
        outcome: Outcome::Success {
            stdout: stdout.to_string(),
            stderr: String::new(),
            exit_code: code,
        },
    }
}

fn failure(id: u64, input: &str, error: &str) -> ResultRow {
    ResultRow {
        batch_id: id,
        input: input.to_string(),
        outcome: Outcome::Failure { error: error.to_string() },
    }
}

fn cells(values: &[Option<&str>]) -> Row {
    Row { cells: values.iter().map(|c| c.map(|t| t.as_bytes().to_vec())).collect() }
}

fn filled() -> Store {
    let mut store = Store::new();
    store.execute(Statement::InsertBatch(batch(1, "echo a"))).unwrap();
    store.execute(Statement::InsertBatch(batch(2, "cat"))).unwrap();
    store.execute(Statement::InsertResult(success(1, "x", "x\n", Some(0)))).unwrap();
    store.execute(Statement::InsertResult(failure(2, "y", "io: ChildProcess(gone)"))).unwrap();
    store.execute(Statement::InsertResult(success(1, "z", "", None))).unwrap();
    store
}

#[test]
fn key_reads_the_bits_as_signed() {
    assert_eq!(key(0), 0);
    assert_eq!(key(1_700_000_000), 1_700_000_000);
    assert_eq!(key(i64::MAX as u64), i64::MAX);
    assert_eq!(key(i64::MAX as u64 + 1), i64::MIN);
    assert_eq!(key(u64::MAX), -1);
}

#[test]
fn batch_row_cells() {
    assert_eq!(batch(42, "echo hi").to_row(), cells(&[Some("42"), Some("echo hi")]));
    assert_eq!(batch(u64::MAX, "").to_row(), cells(&[Some("-1"), Some("")]));
}

#[test]
fn success_row_cells() {
    let row = success(7, "in", "out", Some(-3)).to_row();
    assert_eq!(row, cells(&[Some("7"), Some("in"), Some("out"), Some(""), Some("-3"), Some("")]));
}

#[test]
fn success_row_without_exit_code_reads_an_empty_code() {
    let row = success(7, "in", "out", None).to_row();
    assert_eq!(row, cells(&[Some("7"), Some("in"), Some("out"), Some(""), Some(""), Some("")]));
}

#[test]
fn failure_row_cells() {
    let row = failure(7, "in", "io: x").to_row();
    assert_eq!(
        row,
        cells(&[Some("7"), Some("in"), Some(""), Some(""), Some(""), Some("io: x")])
    );
}

#[test]
fn outcome_columns_are_exclusive() {
    let ok = success(1, "a", "o", Some(0)).outcome;
    assert_eq!(ok.stdout(), Some(&"o".to_string()));
    assert_eq!(ok.stderr(), Some(&String::new()));
    assert_eq!(ok.exit_code(), Some(0));
    assert_eq!(ok.error(), None);
    let bad = failure(1, "a", "e").outcome;
    assert_eq!(bad.stdout(), None);
    assert_eq!(bad.stderr(), None);
    assert_eq!(bad.exit_code(), None);
    assert_eq!(bad.error(), Some(&"e".to_string()));
}

#[test]
fn copies_equal_what_they_copy() {
    assert_eq!(batch(3, "x").copy(), batch(3, "x"));
    assert_eq!(success(3, "i", "o", Some(1)).copy(), success(3, "i", "o", Some(1)));
    assert_eq!(failure(3, "i", "e").copy(), failure(3, "i", "e"));
    let store = filled();
    let copy = store.copy();
    assert_eq!(copy.batches(), store.batches());
    assert_eq!(copy.results(), store.results());
}

#[test]
fn statement_parameters_follow_the_placeholders() {
    assert_eq!(Statement::CreateBatchTable.params(), Vec::<Value>::new());
    assert_eq!(
        Statement::InsertBatch(batch(5, "echo")).params(),
        vec![Value::Integer(5), Value::Text("echo".to_string())]
    );
    assert_eq!(
        Statement::InsertResult(success(5, "i", "o", Some(2))).params(),
        vec![
            Value::Integer(5),
            Value::Text("i".to_string()),
            Value::Text("o".to_string()),
            Value::Text(String::new()),
            Value::Integer(2),
            Value::Null,
        ]
    );
    assert_eq!(
        Statement::InsertResult(failure(u64::MAX, "i", "e")).params(),
        vec![
            Value::Integer(-1),
            Value::Text("i".to_string()),
            Value::Null,
            Value::Null,
            Value::Null,
            Value::Text("e".to_string()),
        ]
    );
    assert_eq!(Statement::DeleteBatch(9).params(), vec![Value::Integer(9)]);
    assert_eq!(Statement::DeleteResults(9).params(), vec![Value::Integer(9)]);
    assert_eq!(Statement::SelectBatch(9).params(), vec![Value::Integer(9)]);
    assert_eq!(Statement::SelectResults(9).params(), vec![Value::Integer(9)]);
}

#[test]
fn statement_text_has_one_placeholder_per_parameter() {
    let statements = vec![
        Statement::CreateBatchTable,
        Statement::CreateResultTable,
        Statement::InsertBatch(batch(1, "a")),
        Statement::InsertResult(success(1, "i", "o", None)),
        Statement::DeleteBatch(1),
        Statement::DeleteResults(1),
        Statement::SelectBatch(1),
        Statement::SelectResults(1),
    ];
    for statement in statements {
        let marks = statement.sql().matches('?').count();
        assert_eq!(marks, statement.params().len());
    }
}

#[test]
fn only_selects_return_rows() {
    assert!(Statement::SelectBatch(1).returns_rows());
    assert!(Statement::SelectResults(1).returns_rows());
    assert!(!Statement::DeleteBatch(1).returns_rows());
    assert!(!Statement::InsertBatch(batch(1, "a")).returns_rows());
    assert!(!Statement::CreateResultTable.returns_rows());
}

#[test]
fn new_store_is_empty() {
    let store = Store::new();
    assert!(store.batches().is_empty());
    assert!(store.results().is_empty());
}

#[test]
fn creating_tables_changes_nothing() {
    let mut store = filled();
    assert_eq!(store.execute(Statement::CreateBatchTable), Ok(Answer::changed(0)));
    assert_eq!(store.execute(Statement::CreateResultTable), Ok(Answer::changed(0)));
    assert_eq!(store.batches(), filled().batches());
    assert_eq!(store.results(), filled().results());
}

#[test]
fn inserts_append_in_order() {
    let store = filled();
    assert_eq!(store.batches(), &vec![batch(1, "echo a"), batch(2, "cat")]);
    assert_eq!(
        store.results(),
        &vec![
            success(1, "x", "x\n", Some(0)),
            failure(2, "y", "io: ChildProcess(gone)"),
            success(1, "z", "", None),
        ]
    );
}

#[test]
fn duplicate_batch_is_refused_and_changes_nothing() {
    let mut store = filled();
    assert_eq!(store.execute(Statement::InsertBatch(batch(2, "other"))), Err(StoreError::Duplicate));
    assert_eq!(store.batches(), filled().batches());
}

#[test]
fn delete_batch_counts_what_it_removed() {
    let mut store = filled();
    assert_eq!(store.execute(Statement::DeleteBatch(1)), Ok(Answer::changed(1)));
    assert_eq!(store.batches(), &vec![batch(2, "cat")]);
    assert_eq!(store.execute(Statement::DeleteBatch(1)), Ok(Answer::changed(0)));
    assert_eq!(store.results().len(), 3);
}

#[test]
fn delete_results_keeps_other_batches_in_order() {
    let mut store = filled();
    assert_eq!(store.execute(Statement::DeleteResults(1)), Ok(Answer::changed(2)));
    assert_eq!(store.results(), &vec![failure(2, "y", "io: ChildProcess(gone)")]);
    assert_eq!(store.batches().len(), 2);
}

#[test]
fn select_batch_returns_its_cells() {
    let mut store = filled();
    let answer = store.execute(Statement::SelectBatch(2)).unwrap();
    assert_eq!(answer, Answer::selected(vec![cells(&[Some("2"), Some("cat")])]));
    let answer = store.execute(Statement::SelectBatch(3)).unwrap();
    assert_eq!(answer, Answer::selected(Vec::new()));
}

#[test]
fn select_results_returns_the_batch_in_stored_order() {
    let mut store = filled();
    let answer = store.execute(Statement::SelectResults(1)).unwrap();
    assert_eq!(
        answer.rows,
        vec![
            cells(&[Some("1"), Some("x"), Some("x\n"), Some(""), Some("0"), Some("")]),
            cells(&[Some("1"), Some("z"), Some(""), Some(""), Some(""), Some("")]),
        ]
    );
    assert_eq!(answer.affected, 0);
}

#[test]
fn found_needs_a_row() {
    assert_eq!(Transaction::found(&Answer::changed(0)), Err(StoreError::NotFound));
    assert_eq!(Transaction::found(&Answer::changed(1)), Ok(()));
    assert_eq!(Transaction::found(&Answer::selected(Vec::new())), Err(StoreError::NotFound));
    assert_eq!(Transaction::found(&Answer::selected(vec![cells(&[None])])), Ok(()));
}

#[test]
fn transaction_without_a_hit_changes_nothing() {
    let mut store = filled();
    let answers = store.transact(Transaction {
        probe: Statement::DeleteBatch(9),
        rest: Statement::DeleteResults(1),
    });
    assert_eq!(answers, Err(StoreError::NotFound));
    assert_eq!(store.batches(), filled().batches());
    assert_eq!(store.results(), filled().results());
}

#[test]
fn refused_second_statement_undoes_the_first() {
    let mut store = filled();
    let answers = store.transact(Transaction {
        probe: Statement::DeleteBatch(1),
        rest: Statement::InsertBatch(batch(2, "again")),
    });
    assert_eq!(answers, Err(StoreError::Duplicate));
    assert_eq!(store.batches(), filled().batches());
    assert_eq!(store.results(), filled().results());
}

#[test]
fn refused_first_statement_ends_the_transaction() {
    let mut store = filled();
    let answers = store.transact(Transaction {
        probe: Statement::InsertBatch(batch(1, "again")),
        rest: Statement::DeleteResults(1),
    });
    assert_eq!(answers, Err(StoreError::Duplicate));
    assert_eq!(store.results(), filled().results());
}

#[test]
fn transaction_applies_both_statements() {
    let mut store = filled();
    let answers = store.transact(Transaction {
        probe: Statement::InsertBatch(batch(3, "new")),
        rest: Statement::InsertResult(success(3, "r", "o", Some(0))),
    });
    assert_eq!(answers, Ok((Answer::changed(1), Answer::changed(1))));
    assert_eq!(store.batches().len(), 3);
    assert_eq!(store.results().len(), 4);
}

#[test]
fn statement_texts() {
    assert_eq!(
        Statement::CreateBatchTable.sql(),
        "CREATE TABLE IF NOT EXISTS BATCH ([timestamp] INTEGER PRIMARY KEY NOT NULL, \
         [arguments] TEXT NOT NULL)"
    );
    assert_eq!(
        Statement::CreateResultTable.sql(),
        "CREATE TABLE IF NOT EXISTS RESULT ([batch_id] INTEGER NOT NULL, [input] TEXT NOT NULL, \
         [stdout] TEXT, [stderr] TEXT, [exit_code] INTEGER, [error] TEXT)"
    );
    assert_eq!(
        Statement::InsertBatch(batch(1, "a")).sql(),
        "INSERT INTO BATCH ([timestamp],[arguments]) VALUES (?,?)"
    );
    assert_eq!(
        Statement::InsertResult(failure(1, "i", "e")).sql(),
        "INSERT INTO RESULT ([batch_id],[input],[stdout],[stderr],[exit_code],[error]) \
         VALUES (?,?,?,?,?,?)"
    );
    assert_eq!(Statement::DeleteBatch(1).sql(), "DELETE FROM BATCH WHERE timestamp = ?");
    assert_eq!(Statement::DeleteResults(1).sql(), "DELETE FROM RESULT WHERE batch_id = ?");
    assert_eq!(Statement::SelectBatch(1).sql(), "SELECT * FROM BATCH WHERE timestamp = ?");
    assert_eq!(Statement::SelectResults(1).sql(), "SELECT * FROM RESULT WHERE batch_id = ?");
}
