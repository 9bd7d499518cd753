use shell::decimal::decimal_string;
use shell::{command_outcome, execute_command, Action, ExitStatus, Outcome, Session, ShellError};

fn args(words: &[&str]) -> Vec<String> {
    words.iter().map(|w| w.to_string()).collect()
}

fn lines(text: &[&str]) -> Vec<String> {
    text.iter().map(|l| l.to_string()).collect()
}

fn done() -> Outcome {
    Outcome { result: Ok(()), diagnostics: Vec::new() }
}

#[test]
fn no_words_are_no_command() {
    assert_eq!(execute_command(Vec::new()), Action::Done(done()));
}

#[test]
fn exit_ends_the_session_with_status_zero() {
    assert_eq!(execute_command(args(&["exit"])), Action::Exit(0));
    assert_eq!(execute_command(args(&["exit", "5"])), Action::Exit(0));
}

#[test]
fn cd_with_one_argument_asks_for_the_change() {
    assert_eq!(
        execute_command(args(&["cd", "/does/not/exist"])),
        Action::ChangeDir("/does/not/exist".to_string())
    );
}

#[test]
fn cd_to_a_missing_directory_fails_and_stays() {
    let mut session = Session::new("/home/user".to_string());
    let action = execute_command(args(&["cd", "/does/not/exist"]));
    assert_eq!(action, Action::ChangeDir("/does/not/exist".to_string()));
    let outcome = session.cd_outcome(None);
    assert_eq!(outcome.result, Err(ShellError::CdFailed));
    assert_eq!(outcome.diagnostics, lines(&["error: cd failed"]));
    assert_eq!(session.working_dir(), "/home/user");
}

#[test]
fn cd_that_succeeds_moves_the_session() {
    let mut session = Session::new("/home/user".to_string());
    let outcome = session.cd_outcome(Some("/tmp".to_string()));
    assert_eq!(outcome, done());
    assert_eq!(session.working_dir(), "/tmp");
}

#[test]
fn cd_with_two_arguments_fails_without_an_attempt() {
    let expected = Outcome {
        result: Err(ShellError::CdFailed),
        diagnostics: lines(&["error: cd requires exactly one argument", "error: cd failed"]),
    };
    assert_eq!(execute_command(args(&["cd", "a", "b"])), Action::Done(expected));
}

#[test]
fn cd_without_an_argument_fails_without_an_attempt() {
    let expected = Outcome {
        result: Err(ShellError::CdFailed),
        diagnostics: lines(&["error: cd requires exactly one argument", "error: cd failed"]),
    };
    assert_eq!(execute_command(args(&["cd"])), Action::Done(expected));
}

#[test]
fn other_first_word_names_a_program() {
    assert_eq!(
        execute_command(args(&["false"])),
        Action::Spawn { program: "false".to_string(), args: Vec::new() }
    );
    assert_eq!(
        execute_command(args(&["ls", "-l", "my dir"])),
        Action::Spawn { program: "ls".to_string(), args: args(&["-l", "my dir"]) }
    );
}

#[test]
fn names_of_builtins_are_matched_whole() {
    for name in ["exi", "exits", "Exit", "c", "cdd", "CD", "exit ", ""] {
        assert_eq!(
            execute_command(args(&[name, "x"])),
            Action::Spawn { program: name.to_string(), args: args(&["x"]) }
        );
    }
}

#[test]
fn child_that_exits_with_one_fails_the_command() {
    assert_eq!(
        execute_command(args(&["false"])),
        Action::Spawn { program: "false".to_string(), args: Vec::new() }
    );
    let outcome = command_outcome(Ok(ExitStatus { success: false, code: Some(1) }));
    assert_eq!(outcome.result, Err(ShellError::CommandFailed));
    assert_eq!(outcome.diagnostics, lines(&["error: command exited with code 1"]));
}

#[test]
fn child_without_an_exit_code_is_reported_with_one() {
    let outcome = command_outcome(Ok(ExitStatus { success: false, code: None }));
    assert_eq!(outcome.result, Err(ShellError::CommandFailed));
    assert_eq!(outcome.diagnostics, lines(&["error: command exited with code 1"]));
}

#[test]
fn exit_code_is_written_in_decimal() {
    let outcome = command_outcome(Ok(ExitStatus { success: false, code: Some(127) }));
    assert_eq!(outcome.diagnostics, lines(&["error: command exited with code 127"]));
    let outcome = command_outcome(Ok(ExitStatus { success: false, code: Some(-1073741819) }));
    assert_eq!(outcome.diagnostics, lines(&["error: command exited with code -1073741819"]));
}

#[test]
fn child_that_succeeds_ends_the_command_quietly() {
    assert_eq!(command_outcome(Ok(ExitStatus { success: true, code: Some(0) })), done());
}

#[test]
fn program_that_cannot_start_is_an_io_error() {
    let message = "No such file or directory (os error 2)";
    let outcome = command_outcome(Err(message.to_string()));
    assert_eq!(outcome.result, Err(ShellError::IoError(message.to_string())));
    assert_eq!(
        outcome.diagnostics,
        lines(&[
            "error: failed to execute command: No such file or directory (os error 2)",
            "error: No such file or directory (os error 2)",
        ])
    );
}

#[test]
fn each_error_has_its_report() {
    let line = |text: &str| Some(text.to_string());
    assert_eq!(ShellError::MismatchedQuotes.report(), line("error: mismatched quotes"));
    assert_eq!(ShellError::TooManyArgs.report(), line("error: too many arguments"));
    assert_eq!(ShellError::CommandLineTooLong.report(), line("error: command line too long"));
    assert_eq!(ShellError::CdFailed.report(), line("error: cd failed"));
    assert_eq!(ShellError::CommandFailed.report(), None);
    assert_eq!(ShellError::IoError("permission denied".to_string()).report(), line("error: permission denied"));
}

#[test]
fn numbers_are_written_as_the_standard_library_writes_them() {
    for value in [0, 1, 9, 10, 11, 99, 100, 255, 12345, -1, -10, -42, i32::MAX, i32::MIN] {
        assert_eq!(decimal_string(value), value.to_string());
    }
    assert_eq!(decimal_string(1090), "1090");
    assert_eq!(decimal_string(-2147483648), "-2147483648");
}
