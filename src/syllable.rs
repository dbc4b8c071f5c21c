//! The arithmetic bijection between precomposed Hangul syllables and their
//! slot indices.
use vstd::prelude::*;

verus! {

/// Code point of the first syllable, "가".
pub const SYLLABLE_FIRST: u32 = 0xAC00;

/// Code point of the last syllable, "힣".
pub const SYLLABLE_LAST: u32 = 0xD7A3;

/// Whether `c` is a precomposed Hangul syllable.
pub open spec fn is_syllable(c: char) -> bool {
    SYLLABLE_FIRST <= c as u32 <= SYLLABLE_LAST
}

/// The distance of `c` from the first syllable.
pub open spec fn syllable_offset(c: char) -> int {
    c as u32 as int - SYLLABLE_FIRST as int
}

/// The leading-consonant slot of a syllable: one leading consonant spans
/// 21 vowels of 28 trailing values each.
pub open spec fn leading_slot(c: char) -> int {
    syllable_offset(c) / 588
}

/// The vowel slot of a syllable.
pub open spec fn vowel_slot(c: char) -> int {
    (syllable_offset(c) % 588) / 28
}

/// The trailing slot of a syllable; 0 when it has no trailing consonant.
pub open spec fn trailing_slot(c: char) -> int {
    syllable_offset(c) % 28
}

/// Whether `(l, v, t)` is a slot index triple.
pub open spec fn valid_slots(l: int, v: int, t: int) -> bool {
    0 <= l < 19 && 0 <= v < 21 && 0 <= t < 28
}

/// The code point of the syllable with slots `(l, v, t)`.
pub open spec fn syllable_code(l: int, v: int, t: int) -> int {
    SYLLABLE_FIRST as int + l * 588 + v * 28 + t
}

/// The syllable with slots `(l, v, t)`.
pub open spec fn syllable_of(l: int, v: int, t: int) -> char {
    (syllable_code(l, v, t) as u32) as char
}

/// Slot triples and syllables correspond one to one.
pub proof fn lemma_syllable_slots(l: int, v: int, t: int)
    requires
        valid_slots(l, v, t),
    ensures
        is_syllable(syllable_of(l, v, t)),
        syllable_of(l, v, t) as u32 == syllable_code(l, v, t),
        leading_slot(syllable_of(l, v, t)) == l,
        vowel_slot(syllable_of(l, v, t)) == v,
        trailing_slot(syllable_of(l, v, t)) == t,
{
    let code = syllable_code(l, v, t);
    assert(0xAC00 <= code <= 0xD7A3) by (nonlinear_arith)
        requires
            code == 0xAC00 + l * 588 + v * 28 + t,
            valid_slots(l, v, t),
    ;
    assert((code as u32) as char as u32 == code);
    let rel = code - 0xAC00;
    assert(rel / 588 == l && (rel % 588) / 28 == v && rel % 28 == t) by (nonlinear_arith)
        requires
            rel == l * 588 + v * 28 + t,
            valid_slots(l, v, t),
    ;
}

/// A syllable is the syllable of its own slots.
pub proof fn lemma_slots_syllable(c: char)
    requires
        is_syllable(c),
    ensures
        valid_slots(leading_slot(c), vowel_slot(c), trailing_slot(c)),
        syllable_of(leading_slot(c), vowel_slot(c), trailing_slot(c)) == c,
{
    let rel = syllable_offset(c);
    let l = leading_slot(c);
    let v = vowel_slot(c);
    let t = trailing_slot(c);
    assert(rel == l * 588 + v * 28 + t && valid_slots(l, v, t)) by (nonlinear_arith)
        requires
            0 <= rel <= 11171,
            l == rel / 588,
            v == (rel % 588) / 28,
            t == rel % 28,
    ;
    lemma_syllable_slots(l, v, t);
}

} // verus!
