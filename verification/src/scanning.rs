//! What reading a piece of a line does to a scan: a plain word, a quoted
//! group, a separating space.

use vstd::prelude::*;
use crate::tokenizer::{scan, scan_from, scan_start, scan_step, scan_words, Scan};

verus! {

/// Reading `a` and then `b` is reading `a + b`.
pub proof fn lemma_scan_from_concat(st: Scan, a: Seq<char>, b: Seq<char>)
    ensures
        scan_from(st, a + b) == scan_from(scan_from(st, a), b),
    decreases b.len(),
{
    if b.len() == 0 {
        assert(a + b == a);
    } else {
        assert((a + b).drop_last() == a + b.drop_last());
        lemma_scan_from_concat(st, a, b.drop_last());
    }
}

/// Whether `c` is one of the two quote characters.
pub open spec fn quote_char(c: char) -> bool {
    c == '\'' || c == '"'
}

/// A character that the tokenizer copies into a word wherever it stands:
/// neither a space nor a quote.
pub open spec fn plain_char(c: char) -> bool {
    c != ' ' && c != '\'' && c != '"'
}

/// A word made of plain characters only.
pub open spec fn plain_word(w: Seq<char>) -> bool {
    forall|j: int| 0 <= j < w.len() ==> plain_char(#[trigger] w[j])
}

/// Words that are all plain.
pub open spec fn plain_words(words: Seq<Seq<char>>) -> bool {
    forall|i: int| 0 <= i < words.len() ==> plain_word(#[trigger] words[i])
}

/// Outside quotes, reading a plain word adds it to the word in progress and
/// changes nothing else.
pub proof fn lemma_scan_plain_word(st: Scan, w: Seq<char>)
    requires
        !st.in_single,
        !st.in_double,
        plain_word(w),
    ensures
        scan_from(st, w) == (Scan { current: st.current + w, ..st }),
    decreases w.len(),
{
    if w.len() == 0 {
        assert(st.current + w == st.current);
    } else {
        lemma_scan_plain_word(st, w.drop_last());
        assert(plain_char(w.last()));
        assert((st.current + w.drop_last()).push(w.last()) == st.current + w);
    }
}

/// Outside quotes, a group between two quotes of one kind joins the word in
/// progress as it stands, spaces and quotes of the other kind included, and
/// the two quotes are dropped.
pub proof fn lemma_scan_quoted_group(st: Scan, q: char, w: Seq<char>)
    requires
        !st.in_single,
        !st.in_double,
        quote_char(q),
        forall|j: int| 0 <= j < w.len() ==> #[trigger] w[j] != q,
    ensures
        scan_from(st, seq![q] + w + seq![q]) == (Scan { current: st.current + w, ..st }),
{
    let open = seq![q];
    assert(open.drop_last() == Seq::<char>::empty());
    assert(scan_from(st, open) == scan_step(scan_from(st, open.drop_last()), open.last()));
    let inside = scan_from(st, open);
    lemma_scan_inside_quotes(inside, q, w);
    lemma_scan_from_concat(st, open, w);
    assert((open + w + open).drop_last() == open + w);
}

/// Inside quotes, every character but the closing quote joins the word in
/// progress.
proof fn lemma_scan_inside_quotes(st: Scan, q: char, w: Seq<char>)
    requires
        quote_char(q),
        st.in_single == (q == '\''),
        st.in_double == (q == '"'),
        forall|j: int| 0 <= j < w.len() ==> #[trigger] w[j] != q,
    ensures
        scan_from(st, w) == (Scan { current: st.current + w, ..st }),
    decreases w.len(),
{
    if w.len() == 0 {
        assert(st.current + w == st.current);
    } else {
        lemma_scan_inside_quotes(st, q, w.drop_last());
        assert(w.last() != q);
        assert((st.current + w.drop_last()).push(w.last()) == st.current + w);
    }
}

/// After a separating space the words already completed have no part in what
/// follows: reading `b` adds to them what reading `b` alone gives.
proof fn lemma_scan_after_separator(st: Scan, b: Seq<char>)
    requires
        !st.in_single,
        !st.in_double,
        st.current.len() == 0,
    ensures
        scan_from(st, b) == (Scan { tokens: st.tokens + scan(b).tokens, ..scan(b) }),
    decreases b.len(),
{
    if b.len() == 0 {
        assert(st.tokens + scan(b).tokens == st.tokens);
        assert(st.current == Seq::<char>::empty());
    } else {
        lemma_scan_after_separator(st, b.drop_last());
        let before = scan(b.drop_last());
        assert((st.tokens + before.tokens).push(before.current) == st.tokens + before.tokens.push(
            before.current,
        ));
    }
}

/// A space outside quotes separates: the words of `a`, a space and `b` are the
/// words of `a`, then those of `b`, and the quotes left open are those that
/// `b` leaves open. It matters neither how many spaces stand at the end of `a`
/// nor how many at the start of `b`.
pub proof fn lemma_space_separates(a: Seq<char>, b: Seq<char>)
    requires
        !scan(a).in_single,
        !scan(a).in_double,
    ensures
        scan_words(scan(a + seq![' '] + b)) == scan_words(scan(a)) + scan_words(scan(b)),
        scan(a + seq![' '] + b).in_single == scan(b).in_single,
        scan(a + seq![' '] + b).in_double == scan(b).in_double,
{
    let sp = seq![' '];
    lemma_scan_from_concat(scan_start(), a + sp, b);
    lemma_scan_from_concat(scan_start(), a, sp);
    assert(sp.drop_last() == Seq::<char>::empty());
    assert(scan_from(scan(a), sp) == scan_step(scan_from(scan(a), sp.drop_last()), sp.last()));
    let st = scan_from(scan(a), sp);
    assert(st.tokens == scan_words(scan(a)));
    lemma_scan_after_separator(st, b);
    let end = scan(b);
    assert((st.tokens + end.tokens).push(end.current) == st.tokens + end.tokens.push(end.current));
}

} // verus!
