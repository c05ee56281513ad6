use xbatch::executor::{settle, Executor, ExecutorError, IOError, OsError, Output};

fn echo() -> Executor {
    Executor::new("echo".to_string(), vec!["-n".to_string()])
}

fn refusal(code: i32, message: &str) -> OsError {
    OsError { code: Some(code), message: message.to_string() }
}

fn output(stdout: &[u8], stderr: &[u8], code: Option<i32>) -> Output {
    Output { stdout: stdout.to_vec(), stderr: stderr.to_vec(), code }
}

#[test]
fn run_asks_for_the_template_and_the_record_bytes() {
    let launch = echo().run("héllo");
    assert_eq!(launch.program, "echo");
    assert_eq!(launch.args, vec!["-n".to_string()]);
    assert_eq!(launch.input, "héllo".as_bytes().to_vec());
}

#[test]
fn run_leaves_the_template_as_it_was() {
    let exe = echo();
    let _ = exe.run("a");
    assert_eq!(exe.program(), "echo");
    assert_eq!(exe.args(), &vec!["-n".to_string()]);
}

#[test]
fn spawn_refusal_is_child_process() {
    let next = echo().run("a").spawned(Err(refusal(2, "No such file or directory")));
    assert_eq!(
        next,
        Err(ExecutorError::IO(IOError::ChildProcess(refusal(2, "No such file or directory"))))
    );
}

#[test]
fn spawn_success_asks_for_the_write() {
    let feed = echo().run("abc").spawned(Ok(())).unwrap();
    assert_eq!(feed.input, b"abc".to_vec());
}

#[test]
fn write_refusal_is_write_to_stdin() {
    let feed = echo().run("a").spawned(Ok(())).unwrap();
    let next = feed.written(Err(refusal(32, "Broken pipe")));
    assert_eq!(next, Err(ExecutorError::IO(IOError::WriteToStdin(refusal(32, "Broken pipe")))));
}

#[test]
fn wait_refusal_is_wait_for_output() {
    let pending = echo().run("a").spawned(Ok(())).unwrap().written(Ok(())).unwrap();
    let outcome = pending.exited(Err(refusal(10, "No child processes")));
    assert_eq!(
        outcome,
        Err(ExecutorError::IO(IOError::WaitForOutput(refusal(10, "No child processes"))))
    );
}

#[test]
fn exit_code_zero_is_success() {
    let pending = echo().run("a").spawned(Ok(())).unwrap().written(Ok(())).unwrap();
    assert_eq!(pending.exited(Ok(output(b"a", b"", Some(0)))), Ok(output(b"a", b"", Some(0))));
}

#[test]
fn non_zero_exit_code_is_data_not_error() {
    let outcome = settle(echo().run("a"), Ok(()), Ok(()), Ok(output(b"", b"boom", Some(3))));
    assert_eq!(outcome, Ok(output(b"", b"boom", Some(3))));
}

#[test]
fn missing_exit_code_is_data_not_error() {
    let outcome = settle(echo().run("a"), Ok(()), Ok(()), Ok(output(b"", b"", None)));
    assert_eq!(outcome, Ok(output(b"", b"", None)));
}

#[test]
fn first_refusal_decides() {
    let outcome = settle(
        echo().run("a"),
        Err(refusal(13, "Permission denied")),
        Err(refusal(32, "Broken pipe")),
        Ok(output(b"never", b"", Some(0))),
    );
    assert_eq!(
        outcome,
        Err(ExecutorError::IO(IOError::ChildProcess(refusal(13, "Permission denied"))))
    );
    let outcome = settle(
        echo().run("a"),
        Ok(()),
        Err(refusal(32, "Broken pipe")),
        Err(refusal(10, "No child processes")),
    );
    assert_eq!(outcome, Err(ExecutorError::IO(IOError::WriteToStdin(refusal(32, "Broken pipe")))));
}

#[test]
fn every_settlement_is_output_or_error() {
    let spawns = [Ok(()), Err(refusal(1, "s"))];
    let writes = [Ok(()), Err(refusal(2, "w"))];
    let waits = [Ok(output(b"o", b"e", Some(7))), Err(refusal(3, "x"))];
    for (i, spawn) in spawns.iter().enumerate() {
        for (j, write) in writes.iter().enumerate() {
            for (k, wait) in waits.iter().enumerate() {
                let spawn = match spawn {
                    Ok(()) => Ok(()),
                    Err(e) => Err(refusal(e.code.unwrap(), &e.message)),
                };
                let write = match write {
                    Ok(()) => Ok(()),
                    Err(e) => Err(refusal(e.code.unwrap(), &e.message)),
                };
                let wait = match wait {
                    Ok(o) => Ok(output(&o.stdout, &o.stderr, o.code)),
                    Err(e) => Err(refusal(e.code.unwrap(), &e.message)),
                };
                let outcome = settle(echo().run("r"), spawn, write, wait);
                assert_eq!(outcome.is_ok(), i == 0 && j == 0 && k == 0);
            }
        }
    }
}

#[test]
fn message_names_the_refused_action() {
    let e = ExecutorError::IO(IOError::ChildProcess(refusal(2, "No such file or directory")));
    assert_eq!(e.message(), "io: ChildProcess(No such file or directory)");
    let e = ExecutorError::IO(IOError::WriteToStdin(refusal(32, "Broken pipe")));
    assert_eq!(e.message(), "io: WriteToStdin(Broken pipe)");
    let e = ExecutorError::IO(IOError::WaitForOutput(refusal(10, "")));
    assert_eq!(e.message(), "io: WaitForOutput()");
}
