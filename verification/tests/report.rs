use stress::session::Phase;
use stress::stress::{Attempt, Outcome, Stress};
use stress::Cli;

fn session(words: &[&str], bail: bool, output: bool, runs: usize) -> Stress {
    let cmd: Vec<String> = words.iter().map(|word| word.to_string()).collect();
    assert!(!cmd.is_empty());
    let mut session = Stress::new(Cli { cmd, bail, output, runs });
    session.start();
    session
}

fn ended(code: i32, stdout: &str) -> Attempt {
    Attempt::Ended { code: Some(code), stdout: stdout.as_bytes().to_vec() }
}

#[test]
fn start_banner_names_the_runs_and_the_command() {
    let cmd = vec!["ls".to_string(), "-a".to_string()];
    let mut session = Stress::new(Cli { cmd, bail: false, output: false, runs: 10 });
    assert_eq!(session.start(), "Starting 10 runs of \"ls -a\"...\n");
}

#[test]
fn completion_banner_names_the_runs_executed() {
    let mut session = session(&["ls", "-a"], true, false, 10);
    session.record(ended(0, "")).unwrap();
    session.record(ended(0, "")).unwrap();
    session.record(ended(2, "")).unwrap();
    assert_eq!(session.phase(), Phase::Bailed);
    session.report();
    assert_eq!(session.finish(), "Completed 3 runs of \"ls -a\"\n");
}

#[test]
fn summary_has_a_heading_and_a_row_for_each_exit_code() {
    let mut session = session(&["flaky"], false, false, 6);
    for code in [130, 0, -1, 0, 130, 0] {
        session.record(ended(code, "ignored")).unwrap();
    }
    assert_eq!(
        session.report(),
        "Exit Code\tRuns\tResult\n-1\t\t1\tfail\n0\t\t3\tsuccess\n130\t\t2\tfail\n"
    );
}

#[test]
fn report_with_output_shows_what_was_kept() {
    let mut session = session(&["flaky"], false, true, 5);
    session.record(ended(1, "boom\n")).unwrap();
    session.record(ended(0, "hello\nworld\n")).unwrap();
    session.record(ended(1, "bang\n")).unwrap();
    session.record(ended(0, "bye\n")).unwrap();
    session.record(ended(0, "")).unwrap();
    assert_eq!(
        session.report(),
        "Exit Code 0 (success) occurred 3 time(s). Output:\nhello\nworld\n\n\
         Exit Code 1 (failure) occurred 2 time(s). Output:\nboom\n\n"
    );
}

#[test]
fn report_with_output_has_no_heading() {
    let mut session = session(&["true"], false, true, 0);
    assert_eq!(session.phase(), Phase::Completed);
    assert_eq!(session.report(), "");
}

#[test]
fn report_after_bail_shows_the_runs_executed() {
    let mut session = session(&["flaky"], true, true, 9);
    session.record(ended(0, "ok")).unwrap();
    session.record(ended(-9, "killed")).unwrap();
    assert_eq!(
        session.report(),
        "Exit Code -9 (failure) occurred 1 time(s). Output:\nkilled\n\
         Exit Code 0 (success) occurred 1 time(s). Output:\nok\n"
    );
    assert_eq!(session.finish(), "Completed 2 runs of \"flaky\"\n");
}

#[test]
fn outcome_text_is_exit_code_and_runs() {
    let outcome = Outcome { exit_code: 0, runs: 5, stdout: None };
    assert_eq!(outcome.to_text(), "0\t\t5");
    let outcome = Outcome { exit_code: -12, runs: 1000, stdout: Some("x".to_string()) };
    assert_eq!(outcome.to_text(), "-12\t\t1000");
}

#[test]
fn outcome_labels() {
    let success = Outcome { exit_code: 0, runs: 1, stdout: None };
    let failure = Outcome { exit_code: 3, runs: 1, stdout: None };
    let negative = Outcome { exit_code: -3, runs: 1, stdout: None };
    assert_eq!(success.label(false), "success");
    assert_eq!(success.label(true), "success");
    assert_eq!(failure.label(false), "fail");
    assert_eq!(failure.label(true), "failure");
    assert_eq!(negative.label(false), "fail");
    assert_eq!(negative.label(true), "failure");
}

#[test]
fn outcome_summary_row() {
    let outcome = Outcome { exit_code: 0, runs: 5, stdout: None };
    assert_eq!(outcome.summary_row(), "0\t\t5\tsuccess\n");
    assert_eq!(outcome.entry(false), "0\t\t5\tsuccess\n");
    let outcome = Outcome { exit_code: 101, runs: 2, stdout: Some("kept".to_string()) };
    assert_eq!(outcome.summary_row(), "101\t\t2\tfail\n");
}

#[test]
fn outcome_output_entry() {
    let outcome = Outcome { exit_code: 2, runs: 7, stdout: Some("out\n".to_string()) };
    assert_eq!(
        outcome.output_entry(),
        "Exit Code 2 (failure) occurred 7 time(s). Output:\nout\n\n"
    );
    assert_eq!(outcome.entry(true), outcome.output_entry());
}

#[test]
fn outcome_without_output_says_so() {
    let outcome = Outcome { exit_code: 0, runs: 1, stdout: None };
    assert_eq!(
        outcome.output_entry(),
        "Exit Code 0 (success) occurred 1 time(s). Output:\nNo output recorded\n"
    );
}
