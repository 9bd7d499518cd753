//! The string functions of the standard library that the interpreter calls
//! and that `vstd` leaves without a contract, each with the contract taken on
//! trust for it, and a comparison of strings.

use vstd::prelude::*;
use vstd::std_specs::iter::IteratorSpec;
use vstd::string::group_string_axioms;

verus! {

/// Taken on trust of `String::push`: the string afterwards is the string
/// before with `ch` added at its end.
pub assume_specification[ String::push ](s: &mut String, ch: char)
    ensures
        final(s)@ == old(s)@.push(ch),
;

/// What `str::trim` makes of a line: the line without the white space at its
/// two ends. Which characters count as white space is the standard library's
/// to say; nothing here depends on it.
pub uninterp spec fn trimmed(line: Seq<char>) -> Seq<char>;

/// Taken on trust of `str::trim`: the result is `trimmed` of the string's
/// characters, that is, it depends on them alone.
pub assume_specification[ str::trim ](s: &str) -> (t: &str)
    ensures
        t@ == trimmed(s@),
;

/// Whether two strings hold the same characters.
pub(crate) fn same_text(a: &str, b: &str) -> (same: bool)
    ensures
        same == (a@ == b@),
{
    broadcast use group_string_axioms;

    let mut left = a.chars();
    let mut right = b.chars();
    let ghost mut i: int = 0;
    loop
        invariant
            left.obeys_prophetic_iter_laws(),
            right.obeys_prophetic_iter_laws(),
            0 <= i <= a@.len(),
            i <= b@.len(),
            left.remaining() == a@.skip(i),
            right.remaining() == b@.skip(i),
            a@.take(i) == b@.take(i),
        decreases a@.len() - i,
    {
        let x = left.next();
        let y = right.next();
        match (x, y) {
            (Some(c), Some(d)) => {
                if c != d {
                    proof {
                        assert(a@[i] != b@[i]);
                    }
                    return false;
                }
                proof {
                    assert(a@.skip(i).drop_first() == a@.skip(i + 1));
                    assert(b@.skip(i).drop_first() == b@.skip(i + 1));
                    assert(a@.take(i + 1) == a@.take(i).push(a@[i]));
                    assert(b@.take(i + 1) == b@.take(i).push(b@[i]));
                    i = i + 1;
                }
            },
            (None, None) => {
                proof {
                    assert(a@.take(i) == a@);
                    assert(b@.take(i) == b@);
                }
                return true;
            },
            _ => {
                return false;
            },
        }
    }
}

} // verus!
