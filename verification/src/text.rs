//! Comparing texts.

use vstd::prelude::*;
use vstd::std_specs::iter::IteratorSpec;

verus! {

/// `c` with an ASCII capital letter replaced by its small letter; any other
/// character, a letter outside ASCII too, stays what it is.
pub open spec fn lowercase_char(c: char) -> char {
    if 'A' <= c && c <= 'Z' {
        ((c as u8) + 32) as char
    } else {
        c
    }
}

/// `text` with each ASCII capital letter replaced by its small letter.
pub open spec fn lowercase(text: Seq<char>) -> Seq<char> {
    Seq::new(text.len(), |i: int| lowercase_char(text[i]))
}

/// `text` as a comparison reads it: with its ASCII capital letters made
/// small where `fold` is set, and as it is where not.
pub open spec fn folded(text: Seq<char>, fold: bool) -> Seq<char> {
    if fold {
        lowercase(text)
    } else {
        text
    }
}

fn to_lowercase_char(c: char) -> (small: char)
    ensures
        small == lowercase_char(c),
{
    if 'A' <= c && c <= 'Z' {
        let code: u8 = c as u8;
        (code + 32) as char
    } else {
        c
    }
}

/// Walks through both texts at once and stops at the first place where
/// they differ.
fn alike(s: &str, word: &str, fold: bool) -> (same: bool)
    ensures
        same == (folded(s@, fold) == folded(word@, fold)),
{
    let mut left = s.chars();
    let mut right = word.chars();
    let ghost mut k: int = 0;
    loop
        invariant
            0 <= k <= s@.len(),
            k <= word@.len(),
            left.remaining() == s@.skip(k),
            right.remaining() == word@.skip(k),
            forall|i: int| 0 <= i < k ==> folded(s@, fold)[i] == folded(word@, fold)[i],
            folded(s@, fold).len() == s@.len(),
            folded(word@, fold).len() == word@.len(),
        decreases s@.len() - k,
    {
        let a = left.next();
        let b = right.next();
        match (a, b) {
            (None, None) => {
                assert(folded(s@, fold) =~= folded(word@, fold));
                return true;
            },
            (Some(x), Some(y)) => {
                let differ = if fold {
                    to_lowercase_char(x) != to_lowercase_char(y)
                } else {
                    x != y
                };
                if differ {
                    assert(folded(s@, fold)[k] != folded(word@, fold)[k]);
                    return false;
                }
                proof {
                    k = k + 1;
                }
            },
            _ => {
                return false;
            },
        }
    }
}

/// Tells whether two texts are the same, character for character.
pub fn same_text(s: &str, word: &str) -> (same: bool)
    ensures
        same == (s@ == word@),
{
    alike(s, word, false)
}

/// Tells whether two texts are the same but for the case of their ASCII
/// letters.
pub fn eq_ignore_ascii_case(s: &str, word: &str) -> (same: bool)
    ensures
        same == (lowercase(s@) == lowercase(word@)),
{
    alike(s, word, true)
}

} // verus!
