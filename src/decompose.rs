//! Splitting text into compatibility jamo.
use vstd::prelude::*;
use crate::jamo::{
    leading_jamo, vowel_jamo, trailing_jamo, vowel_parts, leading_jamo_at, vowel_jamo_at,
    trailing_jamo_at, split_vowel,
};
use crate::syllable::{
    is_syllable, leading_slot, vowel_slot, trailing_slot, syllable_offset, SYLLABLE_FIRST,
    SYLLABLE_LAST,
};
use crate::text::char_string;
use crate::tokens::{unit_views, singletons};

verus! {

/// The units written for vowel slot `v`: a compound vowel gives its two parts.
pub open spec fn vowel_units(v: int) -> Seq<char> {
    match vowel_parts(vowel_jamo(v)) {
        Some((a, b)) => seq![a, b],
        None => seq![vowel_jamo(v)],
    }
}

/// The units written for trailing slot `t`: none when it is empty, else its
/// letter, a compound cluster as one unit.
pub open spec fn trailing_units(t: int) -> Seq<char> {
    if t == 0 {
        seq![]
    } else {
        seq![trailing_jamo(t)]
    }
}

/// The units that one character of text decomposes into.
pub open spec fn char_units(c: char) -> Seq<char> {
    if is_syllable(c) {
        seq![leading_jamo(leading_slot(c))] + vowel_units(vowel_slot(c)) + trailing_units(
            trailing_slot(c),
        )
    } else {
        seq![c]
    }
}

/// The units that a text decomposes into, in reading order.
pub open spec fn decomposed(s: Seq<char>) -> Seq<char>
    decreases s.len(),
{
    if s.len() == 0 {
        seq![]
    } else {
        decomposed(s.drop_last()) + char_units(s.last())
    }
}

/// Decomposes `text` into compatibility jamo, one unit per string.
///
/// A syllable gives its leading consonant, its vowel (a compound vowel as two
/// units) and its trailing consonant if it has one; any other character is
/// passed through as it is.
pub fn decompose(text: &str) -> (r: Vec<String>)
    ensures
        r@.len() == decomposed(text@).len(),
        forall|k: int| 0 <= k < r@.len() ==> r@[k]@ == seq![decomposed(text@)[k]],
        unit_views(r@) == singletons(decomposed(text@)),
{
    let mut result: Vec<String> = Vec::new();
    let ghost mut out: Seq<char> = seq![];
    for c in it: text.chars()
        invariant
            it.seq() == text@,
            out == decomposed(text@.take(it.index() as int)),
            result@.len() == out.len(),
            forall|k: int| 0 <= k < out.len() ==> result@[k]@ == seq![out[k]],
    {
        let ghost before = result@.len();
        let ghost units = char_units(c);
        let code: u32 = c as u32;
        if SYLLABLE_FIRST <= code && code <= SYLLABLE_LAST {
            let rel: u32 = code - SYLLABLE_FIRST;
            let l: usize = (rel / 588) as usize;
            let v: usize = ((rel % 588) / 28) as usize;
            let t: usize = (rel % 28) as usize;
            assert(l == leading_slot(c) && v == vowel_slot(c) && t == trailing_slot(c));
            assert(l < 19) by {
                assert(syllable_offset(c) <= 11171);
            }
            result.push(char_string(leading_jamo_at(l)));
            let vowel: char = vowel_jamo_at(v);
            match split_vowel(vowel) {
                Some((a, b)) => {
                    result.push(char_string(a));
                    result.push(char_string(b));
                },
                None => {
                    result.push(char_string(vowel));
                },
            }
            if t != 0 {
                result.push(char_string(trailing_jamo_at(t)));
            }
        } else {
            result.push(char_string(c));
        }
        proof {
            assert(result@.len() == before + units.len());
            assert(forall|k: int| 0 <= k < units.len() ==> result@[before + k]@ == seq![units[k]]);
            let idx = it.index() as int;
            assert(text@.take(idx + 1).drop_last() =~= text@.take(idx));
            assert(text@.take(idx + 1).last() == c);
            out = out + units;
        }
    }
    proof {
        assert(text@.take(text@.len() as int) =~= text@);
        assert(unit_views(result@) =~= singletons(decomposed(text@)));
    }
    result
}

} // verus!
