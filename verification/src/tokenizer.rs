//! Quote-aware word splitting of one command line.

use vstd::prelude::*;
use crate::error::{ErrorView, ShellError};

verus! {

/// Longest command line, in characters, that the tokenizer accepts.
pub const MAX_CMD_LENGTH: usize = 1000;

/// Largest number of words that a command line may hold.
pub const MAX_ARGS: usize = 100;

/// The tokenizer's state between two characters.
pub struct Scan {
    /// The words completed so far, in order.
    pub tokens: Seq<Seq<char>>,
    /// The characters gathered for the word in progress.
    pub current: Seq<char>,
    /// Whether a single quote is open.
    pub in_single: bool,
    /// Whether a double quote is open.
    pub in_double: bool,
}

/// The state before the first character.
pub open spec fn scan_start() -> Scan {
    Scan { tokens: Seq::empty(), current: Seq::empty(), in_single: false, in_double: false }
}

/// The state after reading `c` in state `st`.
///
/// A quote character opens or closes its own kind of quotation unless the
/// other kind is open; an unquoted space ends the word in progress, if there is
/// one; every other character joins the word in progress.
pub open spec fn scan_step(st: Scan, c: char) -> Scan {
    if c == '\'' && !st.in_double {
        Scan { in_single: !st.in_single, ..st }
    } else if c == '"' && !st.in_single {
        Scan { in_double: !st.in_double, ..st }
    } else if c == ' ' && !st.in_single && !st.in_double {
        if st.current.len() > 0 {
            Scan { tokens: st.tokens.push(st.current), current: Seq::empty(), ..st }
        } else {
            st
        }
    } else {
        Scan { current: st.current.push(c), ..st }
    }
}

/// The state after reading all of `s`, character by character, from `st`.
pub open spec fn scan_from(st: Scan, s: Seq<char>) -> Scan
    decreases s.len(),
{
    if s.len() == 0 {
        st
    } else {
        scan_step(scan_from(st, s.drop_last()), s.last())
    }
}

/// The state after reading all of `s` from the start.
pub open spec fn scan(s: Seq<char>) -> Scan {
    scan_from(scan_start(), s)
}

/// The words of a finished scan: the completed ones, then the word in
/// progress unless it is empty.
pub open spec fn scan_words(st: Scan) -> Seq<Seq<char>> {
    if st.current.len() > 0 {
        st.tokens.push(st.current)
    } else {
        st.tokens
    }
}

/// What tokenizing `s` gives: its words, or the reason it has none.
///
/// The length is judged first, then the quotes, then the number of words.
pub open spec fn tokenize(s: Seq<char>) -> Result<Seq<Seq<char>>, ErrorView> {
    if s.len() > MAX_CMD_LENGTH {
        Err(ErrorView::CommandLineTooLong)
    } else if scan(s).in_single || scan(s).in_double {
        Err(ErrorView::MismatchedQuotes)
    } else if scan_words(scan(s)).len() > MAX_ARGS {
        Err(ErrorView::TooManyArgs)
    } else {
        Ok(scan_words(scan(s)))
    }
}

/// A state that a scan can be in: at most one kind of quote is open, and no
/// completed word is empty.
pub open spec fn scan_wf(st: Scan) -> bool {
    &&& !(st.in_single && st.in_double)
    &&& forall|i: int| 0 <= i < st.tokens.len() ==> (#[trigger] st.tokens[i]).len() > 0
}

/// Reading more characters keeps a scan well-formed.
pub proof fn lemma_scan_from_wf(st: Scan, s: Seq<char>)
    requires
        scan_wf(st),
    ensures
        scan_wf(scan_from(st, s)),
    decreases s.len(),
{
    if s.len() > 0 {
        lemma_scan_from_wf(st, s.drop_last());
    }
}

/// At every point of a scan at most one kind of quote is open, and every word
/// completed so far has at least one character.
pub proof fn lemma_scan_wf(s: Seq<char>)
    ensures
        scan_wf(scan(s)),
        forall|i: int|
            0 <= i < scan_words(scan(s)).len() ==> (#[trigger] scan_words(scan(s))[i]).len() > 0,
{
    lemma_scan_from_wf(scan_start(), s);
}

/// Outside quotes a second space changes nothing: spaces in a row separate
/// as one does.
pub proof fn lemma_spaces_collapse(st: Scan)
    requires
        !st.in_single,
        !st.in_double,
    ensures
        scan_step(scan_step(st, ' '), ' ') == scan_step(st, ' '),
        scan_step(st, ' ').current.len() == 0,
        scan_words(scan_step(st, ' ')) == scan_words(st),
{
}

/// Splits a command line into words.
///
/// Words are separated by unquoted spaces. Single and double quotes group
/// characters, spaces included, into one word and are themselves dropped; each
/// kind is an ordinary character inside the other.
pub fn parse_command(input: &str) -> (r: Result<Vec<String>, ShellError>)
    ensures
        match tokenize(input@) {
            Ok(words) => r matches Ok(v) && v.deep_view() == words,
            Err(e) => r matches Err(f) && f@ == e,
        },
        input@.len() > MAX_CMD_LENGTH ==> r matches Err(ShellError::CommandLineTooLong),
        r matches Ok(v) ==> v.len() <= MAX_ARGS && forall|i: int|
            0 <= i < v.len() ==> (#[trigger] v[i])@.len() > 0,
{
    proof {
        lemma_scan_wf(input@);
    }
    if input.unicode_len() > MAX_CMD_LENGTH {
        return Err(ShellError::CommandLineTooLong);
    }
    let mut tokens: Vec<String> = Vec::new();
    let mut current_token = String::new();
    let mut in_single_quotes = false;
    let mut in_double_quotes = false;

    for c in it: input.chars()
        invariant
            it.seq() == input@,
            scan(input@.take(it.index())).tokens == tokens.deep_view(),
            scan(input@.take(it.index())).current == current_token@,
            scan(input@.take(it.index())).in_single == in_single_quotes,
            scan(input@.take(it.index())).in_double == in_double_quotes,
    {
        proof {
            let i = it.index();
            assert(input@.take(i + 1).drop_last() == input@.take(i));
            assert(input@.take(i + 1).last() == c);
        }
        if c == '\'' && !in_double_quotes {
            in_single_quotes = !in_single_quotes;
        } else if c == '"' && !in_single_quotes {
            in_double_quotes = !in_double_quotes;
        } else if c == ' ' && !in_single_quotes && !in_double_quotes {
            if !current_token.as_str().is_empty() {
                let ghost before = tokens.deep_view();
                tokens.push(current_token);
                assert(tokens.deep_view() == before.push(current_token@));
                current_token = String::new();
            }
        } else {
            current_token.push(c);
        }
    }
    assert(input@.take(input@.len() as int) == input@);

    if in_single_quotes || in_double_quotes {
        return Err(ShellError::MismatchedQuotes);
    }
    if !current_token.as_str().is_empty() {
        let ghost before = tokens.deep_view();
        tokens.push(current_token);
        assert(tokens.deep_view() == before.push(current_token@));
    }
    if tokens.len() > MAX_ARGS {
        return Err(ShellError::TooManyArgs);
    }
    proof {
        assert forall|i: int| 0 <= i < tokens.len() implies (#[trigger] tokens[i])@.len() > 0 by {
            assert(tokens.deep_view()[i] == tokens[i]@);
        }
    }
    Ok(tokens)
}

} // verus!
