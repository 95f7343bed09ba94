//! Character classes, quoting and joining: the pieces that literals and
//! statements are made of.

use crate::decimal::is_digit;
use vstd::prelude::*;
use vstd::string::StringExecFns;

verus! {

/// An ASCII letter or digit.
pub open spec fn is_alphanumeric(c: char) -> bool {
    is_digit(c) || ('a' <= c && c <= 'z') || ('A' <= c && c <= 'Z')
}

/// Whether every character of `text` is an ASCII letter or digit.
pub open spec fn all_alphanumeric(text: Seq<char>) -> bool {
    forall|i: int| 0 <= i < text.len() ==> is_alphanumeric(#[trigger] text[i])
}

/// `body` between two single quotes.
pub open spec fn quoted(body: Seq<char>) -> Seq<char> {
    seq!['\''] + body + seq!['\'']
}

/// Puts `body` between single quotes. This is the one place where a text
/// literal gets its quotes.
pub fn quote(body: &str) -> (text: String)
    ensures
        text@ == quoted(body@),
{
    proof {
        reveal_strlit("'");
    }
    let mut text = String::new();
    text.append("'");
    text.append(body);
    text.append("'");
    text
}

/// The parts one after another, with `separator` between each two.
pub open spec fn joined(parts: Seq<Seq<char>>, separator: char) -> Seq<char>
    decreases parts.len(),
{
    if parts.len() == 0 {
        Seq::empty()
    } else if parts.len() == 1 {
        parts[0]
    } else {
        joined(parts.drop_last(), separator) + seq![separator] + parts.last()
    }
}

/// How many times `c` occurs in `text`.
pub open spec fn occurrences(text: Seq<char>, c: char) -> nat
    decreases text.len(),
{
    if text.len() == 0 {
        0
    } else if text.last() == c {
        occurrences(text.drop_last(), c) + 1
    } else {
        occurrences(text.drop_last(), c)
    }
}

/// Whether `c` does not occur in `text`.
pub open spec fn free_of(text: Seq<char>, c: char) -> bool {
    forall|i: int| 0 <= i < text.len() ==> #[trigger] text[i] != c
}

/// Counting over a concatenation adds up.
pub proof fn lemma_occurrences_concat(a: Seq<char>, b: Seq<char>, c: char)
    ensures
        occurrences(a + b, c) == occurrences(a, c) + occurrences(b, c),
    decreases b.len(),
{
    if b.len() > 0 {
        lemma_occurrences_concat(a, b.drop_last(), c);
        assert((a + b).drop_last() =~= a + b.drop_last());
    }
}

/// A text in which `c` does not occur counts none of it.
pub proof fn lemma_occurrences_free(text: Seq<char>, c: char)
    requires
        free_of(text, c),
    ensures
        occurrences(text, c) == 0,
    decreases text.len(),
{
    if text.len() > 0 {
        lemma_occurrences_free(text.drop_last(), c);
    }
}

/// A one-character text counts one of that character and none of any other.
pub proof fn lemma_occurrences_single(d: char, c: char)
    ensures
        occurrences(seq![d], c) == if d == c { 1nat } else { 0nat },
{
    reveal_with_fuel(occurrences, 2);
}

} // verus!
