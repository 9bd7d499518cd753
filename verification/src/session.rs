//! One session of the interpreter: the working directory it is in, and what
//! each line of input asks for.

use vstd::prelude::*;
use crate::dispatch::{
    all_diagnostics, cd_ended, dispatch, execute_command, failed, failure, lemma_all_diagnostics,
    success, Action, ActionView, Outcome,
};
use crate::error::{lemma_report_is_diagnostic, ShellError};
use crate::text::trimmed;
use crate::tokenizer::{parse_command, tokenize};

verus! {

/// What a line of input asks for: what its words ask for, once the white
/// space at its ends is gone, or nothing but a report if it has no words to
/// give.
pub open spec fn line_action(line: Seq<char>) -> ActionView {
    match tokenize(trimmed(line)) {
        Ok(words) => dispatch(words),
        Err(e) => ActionView::Done(failed(e, None)),
    }
}

/// A line that asks for nothing more is reported in lines that begin with
/// `error: `.
pub proof fn lemma_line_diagnostics(line: Seq<char>)
    ensures
        line_action(line) matches ActionView::Done(outcome) ==> all_diagnostics(
            outcome.diagnostics,
        ),
{
    match tokenize(trimmed(line)) {
        Ok(words) => {
            lemma_all_diagnostics(words, true, Err(Seq::empty()));
        },
        Err(e) => {
            lemma_report_is_diagnostic(e);
        },
    }
}

/// Decides what a line of input asks for.
pub fn interpret(line: &str) -> (action: Action)
    ensures
        action@ == line_action(line@),
{
    match parse_command(line.trim()) {
        Ok(args) => execute_command(args),
        Err(e) => Action::Done(failure(e, None)),
    }
}

/// The state that commands share: the directory the session works in.
pub struct Session {
    working_dir: String,
}

impl View for Session {
    type V = Seq<char>;

    closed spec fn view(&self) -> Seq<char> {
        self.working_dir@
    }
}

impl Session {
    /// A session that starts in `working_dir`.
    pub fn new(working_dir: String) -> (session: Session)
        ensures
            session@ == working_dir@,
    {
        Session { working_dir }
    }

    /// The directory the session works in.
    pub fn working_dir(&self) -> (dir: &str)
        ensures
            dir@ == self@,
    {
        self.working_dir.as_str()
    }

    /// Says how `cd` ended. `entered` is the working directory after the
    /// change, or `None` if the directory could not be entered; the session
    /// then stays where it was.
    pub fn cd_outcome(&mut self, entered: Option<String>) -> (outcome: Outcome)
        ensures
            outcome@ == cd_ended(entered is Some),
            final(self)@ == match entered {
                Some(dir) => dir@,
                None => old(self)@,
            },
    {
        match entered {
            Some(dir) => {
                self.working_dir = dir;
                success()
            },
            None => failure(ShellError::CdFailed, None),
        }
    }
}

} // verus!
