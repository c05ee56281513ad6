use xbatch::batch::{clear, show};
use xbatch::cli::{command, fake, frame, select_all_query, show_output, Cli, Commands, Task};
use xbatch::executor::Executor;
use xbatch::statement::Statement;

fn texts(values: &[&str]) -> Vec<String> {
    values.iter().map(|t| t.to_string()).collect()
}

#[test]
fn command_splits_arguments_at_single_spaces() {
    assert_eq!(command("grep", "-n  foo"), Executor::new("grep".to_string(), texts(&["-n", "", "foo"])));
}

#[test]
fn command_with_empty_argument_text_has_one_empty_argument() {
    assert_eq!(command("cat", ""), Executor::new("cat".to_string(), texts(&[""])));
}

#[test]
fn new_records_program_and_arguments() {
    let cli = Cli { command: Commands::New { program: "echo".to_string(), args: "-n x".to_string() } };
    assert_eq!(
        cli.run(),
        Task::Create {
            exe: Executor::new("echo".to_string(), texts(&["-n", "x"])),
            arguments: "echo -n x".to_string(),
        }
    );
}

#[test]
fn monitor_keeps_the_identifier() {
    let cli = Cli {
        command: Commands::Monitor { id: 77, program: "wc".to_string(), args: "-l".to_string() },
    };
    assert_eq!(
        cli.run(),
        Task::Monitor {
            id: 77,
            exe: Executor::new("wc".to_string(), texts(&["-l"])),
            probe: Statement::SelectBatch(77),
        }
    );
}

#[test]
fn stream_selects_the_whole_table() {
    let cli = Cli {
        command: Commands::Stream { db: "data.db".to_string(), table: "people".to_string() },
    };
    assert_eq!(
        cli.run(),
        Task::Stream {
            db: "data.db".to_string(),
            table: "people".to_string(),
            query: "SELECT ROWID, * FROM people".to_string(),
        }
    );
    assert_eq!(select_all_query(""), "SELECT ROWID, * FROM ");
}

#[test]
fn clear_and_show_run_their_transactions() {
    assert_eq!(Cli { command: Commands::Clear { id: 4 } }.run(), Task::Clear(clear(4)));
    assert_eq!(Cli { command: Commands::Show { id: 4 } }.run(), Task::Show(show(4)));
}

#[test]
fn fake_stays_fake() {
    assert_eq!(Cli { command: Commands::Fake }.run(), Task::Fake);
}

#[test]
fn fake_refuses_a_field_that_is_amazon() {
    assert!(!fake("amazon"));
    assert!(!fake("a,amazon,b"));
    assert!(!fake("a,b,amazon"));
}

#[test]
fn fake_passes_other_lines() {
    assert!(fake(""));
    assert!(fake("a,b"));
    assert!(fake("amazon.com,x"));
    assert!(fake("Amazon"));
    assert!(fake(" amazon"));
    assert!(fake("the amazon river"));
}

#[test]
fn frame_lays_out_the_report() {
    assert_eq!(frame("7,echo", &texts(&["x", "y"])), "\n\nBATCH: 7,echo\n\nx\ny\n\n\n\n");
    assert_eq!(frame("h", &Vec::new()), "\n\nBATCH: h\n\n\n\n\n");
}

#[test]
fn show_output_quotes_every_line() {
    let out = show_output("7,echo", &texts(&["7,a,a\n,,0", "say \"hi\""]));
    assert_eq!(out, "\n\nBATCH: 7,echo\n\n\"7,a,a\\n,,0\"\n\"say \\\"hi\\\"\"\n\n\n\n");
}
