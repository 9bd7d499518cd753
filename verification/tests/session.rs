use shell::{interpret, Action, Outcome, ShellError};

fn args(words: &[&str]) -> Vec<String> {
    words.iter().map(|w| w.to_string()).collect()
}

fn rejected(e: ShellError, line: &str) -> Action {
    Action::Done(Outcome { result: Err(e), diagnostics: vec![line.to_string()] })
}

#[test]
fn white_space_at_the_ends_of_a_line_is_dropped() {
    assert_eq!(
        interpret("\t echo hi \r\n"),
        Action::Spawn { program: "echo".to_string(), args: args(&["hi"]) }
    );
}

#[test]
fn blank_line_asks_for_nothing() {
    let nothing = Action::Done(Outcome { result: Ok(()), diagnostics: Vec::new() });
    assert_eq!(interpret(""), nothing);
    assert_eq!(interpret("  \t \n"), nothing);
}

#[test]
fn line_is_tokenized_before_it_is_dispatched() {
    assert_eq!(interpret("cd 'my dir'\n"), Action::ChangeDir("my dir".to_string()));
    assert_eq!(interpret("'exit'\n"), Action::Exit(0));
    assert_eq!(
        interpret("\"e\"cho 'a  b'\n"),
        Action::Spawn { program: "echo".to_string(), args: args(&["a  b"]) }
    );
}

#[test]
fn line_that_does_not_tokenize_is_reported() {
    assert_eq!(
        interpret("echo 'a\n"),
        rejected(ShellError::MismatchedQuotes, "error: mismatched quotes")
    );
    let many: Vec<String> = (0..101).map(|i| i.to_string()).collect();
    assert_eq!(
        interpret(&many.join(" ")),
        rejected(ShellError::TooManyArgs, "error: too many arguments")
    );
    assert_eq!(
        interpret(&"y".repeat(1001)),
        rejected(ShellError::CommandLineTooLong, "error: command line too long")
    );
}

#[test]
fn length_is_judged_without_the_white_space_at_the_ends() {
    let line = format!("   {}\n", "y".repeat(1000));
    assert_eq!(
        interpret(&line),
        Action::Spawn { program: "y".repeat(1000), args: Vec::new() }
    );
}
