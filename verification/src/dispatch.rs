//! The decisions of the command dispatcher.
//!
//! The dispatcher touches nothing outside itself. It says what a command asks
//! for, the caller does it, and the dispatcher says how the command ended and
//! which lines the diagnostic stream is owed.

use vstd::prelude::*;
use vstd::string::{StrSliceExecFns, StringExecFns};
use crate::decimal::{decimal, decimal_string};
use crate::error::{is_diagnostic, lemma_report_is_diagnostic, report, ErrorView, ShellError};
use crate::text::same_text;

verus! {

/// How a command ended, and the lines to write on the diagnostic stream for
/// it, in order.
#[derive(Debug, PartialEq, Eq)]
pub struct Outcome {
    pub result: Result<(), ShellError>,
    pub diagnostics: Vec<String>,
}

/// An `Outcome` as contracts see it.
pub struct OutcomeView {
    pub result: Result<(), ErrorView>,
    pub diagnostics: Seq<Seq<char>>,
}

impl View for Outcome {
    type V = OutcomeView;

    open spec fn view(&self) -> OutcomeView {
        OutcomeView {
            result: match self.result {
                Ok(()) => Ok(()),
                Err(e) => Err(e@),
            },
            diagnostics: self.diagnostics.deep_view(),
        }
    }
}

/// What the caller is to do for a command.
#[derive(Debug, PartialEq, Eq)]
pub enum Action {
    /// Nothing: the command has ended already.
    Done(Outcome),
    /// End the session, with this status for the process.
    Exit(i32),
    /// Make this path the working directory, then call `Session::cd_outcome`.
    ChangeDir(String),
    /// Start `program` with `args`, wait for it, then call `command_outcome`.
    /// The program is looked up as the operating system does for a new
    /// process; the dispatcher searches no path of its own.
    Spawn { program: String, args: Vec<String> },
}

/// An `Action` as contracts see it.
pub enum ActionView {
    Done(OutcomeView),
    Exit(i32),
    ChangeDir(Seq<char>),
    Spawn { program: Seq<char>, args: Seq<Seq<char>> },
}

impl View for Action {
    type V = ActionView;

    open spec fn view(&self) -> ActionView {
        match self {
            Action::Done(outcome) => ActionView::Done(outcome@),
            Action::Exit(status) => ActionView::Exit(*status),
            Action::ChangeDir(path) => ActionView::ChangeDir(path@),
            Action::Spawn { program, args } => ActionView::Spawn {
                program: program@,
                args: args.deep_view(),
            },
        }
    }
}

/// A command that succeeded, with nothing to report.
pub open spec fn succeeded() -> OutcomeView {
    OutcomeView { result: Ok(()), diagnostics: Seq::empty() }
}

/// A command that failed with `e`: first the line written where the failure
/// was found, if there is one, then the line of the session's top level, if
/// it has one for `e`.
pub open spec fn failed(e: ErrorView, notice: Option<Seq<char>>) -> OutcomeView {
    let first = match notice {
        Some(line) => seq![line],
        None => Seq::empty(),
    };
    let second = match report(e) {
        Some(line) => seq![line],
        None => Seq::empty(),
    };
    OutcomeView { result: Err(e), diagnostics: first + second }
}

/// What a command asks for, by its words.
///
/// No word is no command. `exit` ends the session with status 0, whatever
/// follows it. `cd` takes exactly one argument and fails otherwise, with
/// nothing attempted. Every other first word names a program to run with the
/// remaining words as its arguments.
pub open spec fn dispatch(words: Seq<Seq<char>>) -> ActionView {
    if words.len() == 0 {
        ActionView::Done(succeeded())
    } else if words[0] == "exit"@ {
        ActionView::Exit(0)
    } else if words[0] == "cd"@ {
        if words.len() == 2 {
            ActionView::ChangeDir(words[1])
        } else {
            ActionView::Done(
                failed(ErrorView::CdFailed, Some("error: cd requires exactly one argument"@)),
            )
        }
    } else {
        ActionView::Spawn { program: words[0], args: words.subrange(1, words.len() as int) }
    }
}

/// What the operating system says of a child process that ended: whether it
/// counts the end as a success, and the exit code if the child gave one (a
/// child that a signal ended gave none).
#[derive(Debug, Clone, Copy, PartialEq, Eq)]
pub struct ExitStatus {
    pub success: bool,
    pub code: Option<i32>,
}

/// The exit code to report for a child that did not succeed: its own, or 1 if
/// it gave none.
pub open spec fn reported_code(status: ExitStatus) -> int {
    match status.code {
        Some(code) => code as int,
        None => 1,
    }
}

/// How a command ends once the attempt to run its program is over: `status`
/// is what the child ended with, or the operating system's message if the
/// child could not be started.
pub open spec fn command_ended(status: Result<ExitStatus, Seq<char>>) -> OutcomeView {
    match status {
        Ok(ended) => if ended.success {
            succeeded()
        } else {
            failed(
                ErrorView::CommandFailed,
                Some("error: command exited with code "@ + decimal(reported_code(ended))),
            )
        },
        Err(message) => failed(
            ErrorView::IoError(message),
            Some("error: failed to execute command: "@ + message),
        ),
    }
}

/// How `cd` ends once the attempt to enter the directory is over.
pub open spec fn cd_ended(entered: bool) -> OutcomeView {
    if entered {
        succeeded()
    } else {
        failed(ErrorView::CdFailed, None)
    }
}

/// Lines that all begin with `error: `.
pub open spec fn all_diagnostics(lines: Seq<Seq<char>>) -> bool {
    forall|i: int| 0 <= i < lines.len() ==> is_diagnostic(#[trigger] lines[i])
}

proof fn lemma_failed_diagnostics(e: ErrorView, notice: Option<Seq<char>>)
    requires
        notice matches Some(line) ==> is_diagnostic(line),
    ensures
        all_diagnostics(failed(e, notice).diagnostics),
{
    lemma_report_is_diagnostic(e);
}

/// Whatever a command asks for and however it ends, each line that the
/// diagnostic stream is owed for it begins with `error: `.
pub proof fn lemma_all_diagnostics(
    words: Seq<Seq<char>>,
    entered: bool,
    status: Result<ExitStatus, Seq<char>>,
)
    ensures
        dispatch(words) matches ActionView::Done(outcome) ==> all_diagnostics(outcome.diagnostics),
        all_diagnostics(cd_ended(entered).diagnostics),
        all_diagnostics(command_ended(status).diagnostics),
{
    reveal_strlit("error: ");
    reveal_strlit("error: cd requires exactly one argument");
    reveal_strlit("error: command exited with code ");
    reveal_strlit("error: failed to execute command: ");
    lemma_failed_diagnostics(
        ErrorView::CdFailed,
        Some("error: cd requires exactly one argument"@),
    );
    lemma_failed_diagnostics(ErrorView::CdFailed, None);
    match status {
        Ok(ended) => {
            lemma_failed_diagnostics(
                ErrorView::CommandFailed,
                Some("error: command exited with code "@ + decimal(reported_code(ended))),
            );
        },
        Err(message) => {
            lemma_failed_diagnostics(
                ErrorView::IoError(message),
                Some("error: failed to execute command: "@ + message),
            );
        },
    }
}

pub(crate) fn success() -> (outcome: Outcome)
    ensures
        outcome@ == succeeded(),
{
    let outcome = Outcome { result: Ok(()), diagnostics: Vec::new() };
    assert(outcome.diagnostics.deep_view() == Seq::<Seq<char>>::empty());
    outcome
}

pub(crate) fn failure(e: ShellError, notice: Option<String>) -> (outcome: Outcome)
    ensures
        outcome@ == failed(
            e@,
            match notice {
                Some(line) => Some(line@),
                None => None,
            },
        ),
{
    let mut diagnostics: Vec<String> = Vec::new();
    assert(diagnostics.deep_view() == Seq::<Seq<char>>::empty());
    if let Some(line) = notice {
        let ghost before = diagnostics.deep_view();
        diagnostics.push(line);
        assert(diagnostics.deep_view() == before.push(line@));
    }
    if let Some(line) = e.report() {
        let ghost before = diagnostics.deep_view();
        diagnostics.push(line);
        assert(diagnostics.deep_view() == before.push(line@));
    }
    let outcome = Outcome { result: Err(e), diagnostics };
    assert(outcome@.diagnostics == failed(
        e@,
        match notice {
            Some(line) => Some(line@),
            None => None,
        },
    ).diagnostics);
    outcome
}

/// Decides what a tokenized command asks for.
///
/// The first word is the command's name, the others are its arguments.
pub fn execute_command(args: Vec<String>) -> (action: Action)
    ensures
        action@ == dispatch(args.deep_view()),
{
    let mut args = args;
    let ghost words = args.deep_view();
    if args.len() == 0 {
        return Action::Done(success());
    }
    assert(words[0] == args[0]@);
    if same_text(args[0].as_str(), "exit") {
        return Action::Exit(0);
    }
    if same_text(args[0].as_str(), "cd") {
        if args.len() != 2 {
            return Action::Done(
                failure(
                    ShellError::CdFailed,
                    Some(String::from_str("error: cd requires exactly one argument")),
                ),
            );
        }
        assert(words[1] == args[1]@);
        let path = args.remove(1);
        return Action::ChangeDir(path);
    }
    let program = args.remove(0);
    proof {
        let rest = words.subrange(1, words.len() as int);
        assert(args.deep_view().len() == rest.len());
        assert forall|i: int| 0 <= i < rest.len() implies args.deep_view()[i] == rest[i] by {
            assert(args.deep_view()[i] == args[i]@);
            assert(rest[i] == words[i + 1]);
        }
        assert(args.deep_view() == rest);
    }
    Action::Spawn { program, args }
}

/// Says how a command ended whose program the caller has tried to run:
/// `status` is what the child ended with, or the operating system's message
/// if it could not be started.
pub fn command_outcome(status: Result<ExitStatus, String>) -> (outcome: Outcome)
    ensures
        outcome@ == command_ended(
            match status {
                Ok(ended) => Ok(ended),
                Err(message) => Err(message@),
            },
        ),
{
    match status {
        Ok(ended) => {
            if ended.success {
                success()
            } else {
                let code = match ended.code {
                    Some(code) => code,
                    None => 1,
                };
                let mut notice = String::from_str("error: command exited with code ");
                notice.append(decimal_string(code).as_str());
                failure(ShellError::CommandFailed, Some(notice))
            }
        },
        Err(message) => {
            let mut notice = String::from_str("error: failed to execute command: ");
            notice.append(message.as_str());
            failure(ShellError::IoError(message), Some(notice))
        },
    }
}

} // verus!
