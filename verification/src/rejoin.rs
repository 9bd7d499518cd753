//! What tokenizing a line a second time gives.

use vstd::prelude::*;
use crate::error::ErrorView;
use crate::scanning::{
    lemma_scan_from_concat, lemma_scan_plain_word, plain_char, plain_word, plain_words, quote_char,
};
use crate::tokenizer::{
    lemma_scan_wf, scan, scan_from, scan_start, scan_step, scan_words, tokenize, Scan,
    MAX_CMD_LENGTH,
};

verus! {

/// The words joined into one line, with a single space between neighbours.
pub open spec fn join(words: Seq<Seq<char>>) -> Seq<char>
    decreases words.len(),
{
    if words.len() == 0 {
        Seq::empty()
    } else if words.len() == 1 {
        words[0]
    } else {
        join(words.drop_last()) + seq![' '] + words.last()
    }
}

/// Scanning the join of plain, non-empty words leaves the last word in
/// progress, the others completed, and no quote open.
proof fn lemma_scan_join(words: Seq<Seq<char>>)
    requires
        words.len() > 0,
        plain_words(words),
        forall|i: int| 0 <= i < words.len() ==> (#[trigger] words[i]).len() > 0,
    ensures
        scan(join(words)) == (Scan {
            tokens: words.drop_last(),
            current: words.last(),
            in_single: false,
            in_double: false,
        }),
    decreases words.len(),
{
    let last = words.last();
    assert(plain_word(last));
    if words.len() == 1 {
        lemma_scan_plain_word(scan_start(), last);
        assert(Seq::<char>::empty() + last == last);
        assert(words.drop_last() == Seq::<Seq<char>>::empty());
    } else {
        let front = words.drop_last();
        assert forall|i: int| 0 <= i < front.len() implies plain_word(#[trigger] front[i]) by {
            assert(front[i] == words[i]);
        }
        assert forall|i: int| 0 <= i < front.len() implies (#[trigger] front[i]).len() > 0 by {
            assert(front[i] == words[i]);
        }
        lemma_scan_join(front);
        let a = join(front);
        let sp = seq![' '];
        let st1 = scan(a);
        lemma_scan_from_concat(scan_start(), a + sp, last);
        lemma_scan_from_concat(scan_start(), a, sp);
        assert(sp.drop_last() == Seq::<char>::empty());
        assert(scan_from(st1, sp) == scan_step(scan_from(st1, sp.drop_last()), sp.last()));
        let st2 = scan_from(st1, sp);
        assert(front.drop_last().push(front.last()) == front);
        assert(st2 == (Scan {
            tokens: front,
            current: Seq::<char>::empty(),
            in_single: false,
            in_double: false,
        }));
        lemma_scan_plain_word(st2, last);
        assert(Seq::<char>::empty() + last == last);
    }
}

/// The length of a scan's words when joined, counting one space after each
/// completed word.
pub open spec fn scan_cost(st: Scan) -> int {
    join(st.tokens).len() + (if st.tokens.len() > 0 { 1int } else { 0int }) + st.current.len()
}

/// Joining one more word adds its length, and a space if it is not the first.
proof fn lemma_join_push(words: Seq<Seq<char>>, w: Seq<char>)
    ensures
        join(words.push(w)) == if words.len() == 0 {
            w
        } else {
            join(words) + seq![' '] + w
        },
{
    assert(words.push(w).drop_last() == words);
}

/// A scan never gathers more than it has read.
proof fn lemma_scan_cost(s: Seq<char>)
    ensures
        scan_cost(scan(s)) <= s.len(),
        join(scan_words(scan(s))).len() <= s.len(),
    decreases s.len(),
{
    if s.len() > 0 {
        lemma_scan_cost(s.drop_last());
        let st = scan(s.drop_last());
        lemma_join_push(st.tokens, st.current);
    }
    lemma_join_push(scan(s).tokens, scan(s).current);
}

/// The number of quote characters in `s`.
pub open spec fn quote_count(s: Seq<char>) -> nat
    decreases s.len(),
{
    if s.len() == 0 {
        0
    } else {
        quote_count(s.drop_last()) + if quote_char(s.last()) {
            1nat
        } else {
            0nat
        }
    }
}

/// A word without a space.
pub open spec fn spaceless(w: Seq<char>) -> bool {
    forall|j: int| 0 <= j < w.len() ==> #[trigger] w[j] != ' '
}

proof fn lemma_quote_count_concat(a: Seq<char>, b: Seq<char>)
    ensures
        quote_count(a + b) == quote_count(a) + quote_count(b),
    decreases b.len(),
{
    if b.len() == 0 {
        assert(a + b == a);
    } else {
        assert((a + b).drop_last() == a + b.drop_last());
        lemma_quote_count_concat(a, b.drop_last());
    }
}

/// A sequence that counts no quote holds none.
proof fn lemma_quote_count_zero(s: Seq<char>)
    requires
        quote_count(s) == 0,
    ensures
        forall|j: int| 0 <= j < s.len() ==> !quote_char(#[trigger] s[j]),
    decreases s.len(),
{
    if s.len() > 0 {
        lemma_quote_count_zero(s.drop_last());
        assert forall|j: int| 0 <= j < s.len() implies !quote_char(#[trigger] s[j]) by {
            if j < s.len() - 1 {
                assert(s[j] == s.drop_last()[j]);
            }
        }
    }
}

/// The quotes of a joined line are those of its words.
proof fn lemma_quote_count_join_push(words: Seq<Seq<char>>, w: Seq<char>)
    ensures
        quote_count(join(words.push(w))) == quote_count(join(words)) + quote_count(w),
{
    lemma_join_push(words, w);
    let sp = seq![' '];
    assert(quote_count(sp) == 0) by {
        assert(sp.drop_last() == Seq::<char>::empty());
        assert(quote_count(sp.drop_last()) == 0);
        assert(!quote_char(sp.last()));
    }
    if words.len() == 0 {
        assert(quote_count(join(words)) == 0);
    } else {
        lemma_quote_count_concat(join(words), sp);
        lemma_quote_count_concat(join(words) + sp, w);
    }
}

/// A joined line without a quote is made of words without one.
proof fn lemma_quote_count_join_zero(words: Seq<Seq<char>>)
    requires
        quote_count(join(words)) == 0,
    ensures
        forall|i: int| 0 <= i < words.len() ==> quote_count(#[trigger] words[i]) == 0,
    decreases words.len(),
{
    if words.len() > 0 {
        let front = words.drop_last();
        assert(front.push(words.last()) == words);
        lemma_quote_count_join_push(front, words.last());
        lemma_quote_count_join_zero(front);
        assert forall|i: int| 0 <= i < words.len() implies quote_count(#[trigger] words[i])
            == 0 by {
            if i < words.len() - 1 {
                assert(words[i] == front[i]);
            }
        }
    }
}

/// The quotes that a scan has kept in its words.
pub open spec fn scan_quotes(st: Scan) -> nat {
    quote_count(join(st.tokens)) + quote_count(st.current)
}

/// A scan drops the first quote character that it reads: it keeps fewer
/// quotes than the line holds, unless the line holds none, and only a line
/// with a quote leaves one open.
proof fn lemma_scan_drops_a_quote(s: Seq<char>)
    ensures
        scan_quotes(scan(s)) <= quote_count(s),
        quote_count(s) > 0 ==> scan_quotes(scan(s)) < quote_count(s),
        scan(s).in_single || scan(s).in_double ==> quote_count(s) > 0,
        quote_count(join(scan_words(scan(s)))) == scan_quotes(scan(s)),
    decreases s.len(),
{
    if s.len() > 0 {
        lemma_scan_drops_a_quote(s.drop_last());
        let st = scan(s.drop_last());
        lemma_quote_count_join_push(st.tokens, st.current);
        assert(st.current.push(s.last()).drop_last() == st.current);
    }
    lemma_quote_count_join_push(scan(s).tokens, scan(s).current);
}

/// In a line without quotes every space separates: no word of the scan holds
/// one.
proof fn lemma_scan_unquoted(s: Seq<char>)
    requires
        quote_count(s) == 0,
    ensures
        !scan(s).in_single,
        !scan(s).in_double,
        spaceless(scan(s).current),
        forall|i: int| 0 <= i < scan(s).tokens.len() ==> spaceless(#[trigger] scan(s).tokens[i]),
        forall|i: int|
            0 <= i < scan_words(scan(s)).len() ==> spaceless(#[trigger] scan_words(scan(s))[i]),
    decreases s.len(),
{
    if s.len() > 0 {
        lemma_scan_unquoted(s.drop_last());
    }
}

/// Words that come back unchanged from joining and tokenizing are plain.
pub proof fn lemma_rejoined_words_are_plain(words: Seq<Seq<char>>)
    requires
        tokenize(join(words)) == Ok::<Seq<Seq<char>>, ErrorView>(words),
    ensures
        plain_words(words),
{
    let line = join(words);
    assert(scan_words(scan(line)) == words);
    lemma_scan_drops_a_quote(line);
    assert(quote_count(line) == 0);
    lemma_scan_unquoted(line);
    lemma_quote_count_join_zero(words);
    assert forall|i: int| 0 <= i < words.len() implies plain_word(#[trigger] words[i]) by {
        lemma_quote_count_zero(words[i]);
        assert(spaceless(words[i]));
        assert forall|j: int| 0 <= j < words[i].len() implies plain_char(
            #[trigger] words[i][j],
        ) by {
            assert(!quote_char(words[i][j]));
        }
    }
}

/// Plain words come back unchanged from joining and tokenizing, if the
/// tokenizer gave them.
pub proof fn lemma_plain_words_rejoin(s: Seq<char>)
    requires
        tokenize(s) is Ok,
        plain_words(tokenize(s)->Ok_0),
    ensures
        tokenize(join(tokenize(s)->Ok_0)) == tokenize(s),
{
    let words = tokenize(s)->Ok_0;
    let line = join(words);
    assert(words == scan_words(scan(s)));
    lemma_scan_wf(s);
    lemma_scan_cost(s);
    assert(line.len() <= MAX_CMD_LENGTH);
    if words.len() > 0 {
        lemma_scan_join(words);
        assert(words.drop_last().push(words.last()) == words);
    }
    assert(scan_words(scan(line)) == words);
}

/// Of every line that tokenizes: joining its words with single spaces and
/// tokenizing the result gives the same words again exactly when none of them
/// holds a space or a quote character, which only quoting can put into a word.
pub proof fn lemma_retokenize_joined(s: Seq<char>)
    requires
        tokenize(s) is Ok,
    ensures
        tokenize(join(tokenize(s)->Ok_0)) == tokenize(s) <==> plain_words(tokenize(s)->Ok_0),
{
    let words = tokenize(s)->Ok_0;
    if plain_words(words) {
        lemma_plain_words_rejoin(s);
    }
    if tokenize(join(words)) == tokenize(s) {
        lemma_rejoined_words_are_plain(words);
    }
}

} // verus!
