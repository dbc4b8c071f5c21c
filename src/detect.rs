//! Whether a text holds Hangul syllables.
use vstd::prelude::*;
use crate::syllable::{is_syllable, SYLLABLE_FIRST, SYLLABLE_LAST};

verus! {

/// Whether some character of `s` is a precomposed Hangul syllable.
pub open spec fn contains_syllable(s: Seq<char>) -> bool {
    exists|k: int| 0 <= k < s.len() && is_syllable(#[trigger] s[k])
}

/// Whether `text` holds at least one precomposed Hangul syllable.
pub fn is_korean(text: &str) -> (r: bool)
    ensures
        r == contains_syllable(text@),
{
    for c in it: text.chars()
        invariant
            it.seq() == text@,
            forall|k: int| 0 <= k < it.index() ==> !is_syllable(#[trigger] text@[k]),
    {
        let code: u32 = c as u32;
        if SYLLABLE_FIRST <= code && code <= SYLLABLE_LAST {
            assert(text@[it.index() as int] == c);
            return true;
        }
    }
    false
}

} // verus!
