//! The error kinds of the interpreter, and the line that each one is
//! reported with.

use vstd::prelude::*;
use vstd::string::StringExecFns;

verus! {

/// Why a command line was not carried out. None of these ends the session.
#[derive(Debug, PartialEq, Eq)]
pub enum ShellError {
    /// A quote was still open at the end of the line.
    MismatchedQuotes,
    /// The line holds more words than the tokenizer allows.
    TooManyArgs,
    /// The line is longer than the tokenizer allows.
    CommandLineTooLong,
    /// The child process ended with a status other than success.
    CommandFailed,
    /// `cd` was given the wrong number of arguments, or the directory could
    /// not be entered.
    CdFailed,
    /// The child process could not be started; the field is the operating
    /// system's message.
    IoError(String),
}

/// A `ShellError` as contracts see it, with the message as a sequence of
/// characters.
pub enum ErrorView {
    MismatchedQuotes,
    TooManyArgs,
    CommandLineTooLong,
    CommandFailed,
    CdFailed,
    IoError(Seq<char>),
}

impl View for ShellError {
    type V = ErrorView;

    open spec fn view(&self) -> ErrorView {
        match self {
            ShellError::MismatchedQuotes => ErrorView::MismatchedQuotes,
            ShellError::TooManyArgs => ErrorView::TooManyArgs,
            ShellError::CommandLineTooLong => ErrorView::CommandLineTooLong,
            ShellError::CommandFailed => ErrorView::CommandFailed,
            ShellError::CdFailed => ErrorView::CdFailed,
            ShellError::IoError(message) => ErrorView::IoError(message@),
        }
    }
}

/// The line that the session's top level writes for an error, if it writes
/// one. A failed command has been reported with its exit code by then and
/// gets no second line.
pub open spec fn report(e: ErrorView) -> Option<Seq<char>> {
    match e {
        ErrorView::MismatchedQuotes => Some("error: mismatched quotes"@),
        ErrorView::TooManyArgs => Some("error: too many arguments"@),
        ErrorView::CommandLineTooLong => Some("error: command line too long"@),
        ErrorView::CommandFailed => None,
        ErrorView::CdFailed => Some("error: cd failed"@),
        ErrorView::IoError(message) => Some("error: "@ + message),
    }
}

/// Whether `line` begins as every diagnostic does, with `error: `.
pub open spec fn is_diagnostic(line: Seq<char>) -> bool {
    "error: "@.is_prefix_of(line)
}

/// Every report begins with `error: `.
pub proof fn lemma_report_is_diagnostic(e: ErrorView)
    ensures
        report(e) matches Some(line) ==> is_diagnostic(line),
{
    reveal_strlit("error: ");
    match e {
        ErrorView::MismatchedQuotes => {
            reveal_strlit("error: mismatched quotes");
        },
        ErrorView::TooManyArgs => {
            reveal_strlit("error: too many arguments");
        },
        ErrorView::CommandLineTooLong => {
            reveal_strlit("error: command line too long");
        },
        ErrorView::CommandFailed => {},
        ErrorView::CdFailed => {
            reveal_strlit("error: cd failed");
        },
        ErrorView::IoError(message) => {},
    }
}

impl ShellError {
    /// The line to write on the diagnostic stream for this error, if any.
    pub fn report(&self) -> (line: Option<String>)
        ensures
            match report(self@) {
                Some(text) => line matches Some(s) && s@ == text,
                None => line is None,
            },
    {
        match self {
            ShellError::MismatchedQuotes => Some(String::from_str("error: mismatched quotes")),
            ShellError::TooManyArgs => Some(String::from_str("error: too many arguments")),
            ShellError::CommandLineTooLong => Some(
                String::from_str("error: command line too long"),
            ),
            ShellError::CommandFailed => None,
            ShellError::CdFailed => Some(String::from_str("error: cd failed")),
            ShellError::IoError(message) => {
                let mut line = String::from_str("error: ");
                line.append(message.as_str());
                Some(line)
            },
        }
    }
}

} // verus!
