//! Laws that relate decomposition, composition and detection.
use vstd::prelude::*;
use crate::jamo::{
    leading_jamo, vowel_jamo, trailing_jamo, leading_index_of, vowel_index_of, trailing_index_of,
    vowel_parts, joined_vowel, joined_trailing, lemma_leading_index, lemma_vowel_index,
    lemma_trailing_index, lemma_vowel_compounds, lemma_trailing_compounds,
    lemma_consonants_not_vowels,
};
use crate::syllable::{
    is_syllable, leading_slot, vowel_slot, trailing_slot, syllable_of, lemma_slots_syllable,
    lemma_syllable_slots,
};
use crate::decompose::{char_units, decomposed, vowel_units};
use crate::compose::{composed, composed_from, unit_at, vowel_at, trailing_at, syllable_at};
use crate::detect::contains_syllable;
use crate::tokens::singletons;

verus! {

/// The first unit that the characters of `s` after position `k` decompose into.
pub open spec fn next_unit(s: Seq<char>, k: int) -> Option<char> {
    if k + 1 < s.len() {
        Some(char_units(s[k + 1])[0])
    } else {
        None
    }
}

/// Whether the units of `c`, followed by the unit `next`, compose back into
/// `c` alone. Composition takes a trailing consonant greedily, so this fails
/// when `next` would be read as (part of) the trailing consonant or the vowel
/// of `c`, or when `c` is a lone leading consonant that a vowel follows.
pub open spec fn stands_alone(c: char, next: Option<char>) -> bool {
    match next {
        None => true,
        Some(n) => if is_syllable(c) {
            if trailing_slot(c) == 0 {
                trailing_index_of(n) is None && (vowel_parts(vowel_jamo(vowel_slot(c))) is Some
                    || joined_vowel(vowel_jamo(vowel_slot(c)), n) is None)
            } else {
                joined_trailing(trailing_jamo(trailing_slot(c)), n) is None
            }
        } else {
            leading_index_of(c) is None || vowel_index_of(n) is None
        },
    }
}

/// Whether every character of `s` stands alone before the units that follow it.
pub open spec fn recomposable(s: Seq<char>) -> bool {
    forall|k: int| 0 <= k < s.len() ==> #[trigger] stands_alone(s[k], next_unit(s, k))
}

/// Decomposition distributes over concatenation.
pub proof fn lemma_decomposed_concat(a: Seq<char>, b: Seq<char>)
    ensures
        decomposed(a + b) == decomposed(a) + decomposed(b),
    decreases b.len(),
{
    if b.len() == 0 {
        assert(a + b =~= a);
        assert(decomposed(a) + decomposed(b) =~= decomposed(a));
    } else {
        assert((a + b).drop_last() =~= a + b.drop_last());
        lemma_decomposed_concat(a, b.drop_last());
        assert(decomposed(a + b) =~= decomposed(a) + decomposed(b));
    }
}

/// A single character decomposes into its own units, of which there is at least one.
pub proof fn lemma_decomposed_single(c: char)
    ensures
        decomposed(seq![c]) == char_units(c),
        char_units(c).len() >= 1,
{
    let single = seq![c];
    assert(single.drop_last() =~= Seq::<char>::empty());
    assert(single.last() == c);
    assert(decomposed(single.drop_last()) =~= Seq::<char>::empty());
    assert(decomposed(single) =~= char_units(c));
}

/// The units of `s` split at character `k`.
proof fn lemma_decomposed_split(s: Seq<char>, k: int)
    requires
        0 <= k < s.len(),
    ensures
        decomposed(s) == decomposed(s.take(k)) + char_units(s[k]) + decomposed(s.skip(k + 1)),
        k + 1 < s.len() ==> decomposed(s.skip(k + 1)).len() > 0 && decomposed(s.skip(k + 1))[0]
            == char_units(s[k + 1])[0],
        k + 1 == s.len() ==> decomposed(s.skip(k + 1)).len() == 0,
{
    assert(s =~= s.take(k) + seq![s[k]] + s.skip(k + 1));
    lemma_decomposed_concat(s.take(k) + seq![s[k]], s.skip(k + 1));
    lemma_decomposed_concat(s.take(k), seq![s[k]]);
    lemma_decomposed_single(s[k]);
    let rest = s.skip(k + 1);
    if k + 1 < s.len() {
        assert(rest =~= seq![rest[0]] + rest.skip(1));
        lemma_decomposed_concat(seq![rest[0]], rest.skip(1));
        lemma_decomposed_single(rest[0]);
    } else {
        assert(rest =~= Seq::<char>::empty());
    }
}

/// Where the units of character `k` stand among the units of `s`, and which
/// unit follows them.
proof fn lemma_units_of_char(s: Seq<char>, k: int)
    requires
        0 <= k < s.len(),
    ensures
        ({
            let u = singletons(decomposed(s));
            let i = decomposed(s.take(k)).len() as int;
            let cu = char_units(s[k]);
            &&& cu.len() >= 1
            &&& decomposed(s.take(k + 1)).len() == i + cu.len()
            &&& cu.len() <= 4
            &&& unit_at(u, i) == Some(cu[0])
            &&& cu.len() > 1 ==> unit_at(u, i + 1) == Some(cu[1])
            &&& cu.len() > 2 ==> unit_at(u, i + 2) == Some(cu[2])
            &&& cu.len() > 3 ==> unit_at(u, i + 3) == Some(cu[3])
            &&& unit_at(u, i + cu.len()) == next_unit(s, k)
        }),
{
    let d = decomposed(s);
    let u = singletons(d);
    let i = decomposed(s.take(k)).len() as int;
    let c = s[k];
    let cu = char_units(c);
    let m = cu.len() as int;
    lemma_decomposed_split(s, k);
    lemma_decomposed_single(c);
    assert(s.take(k + 1) =~= s.take(k) + seq![c]);
    lemma_decomposed_concat(s.take(k), seq![c]);
    assert forall|j: int| 0 <= j < m implies unit_at(u, i + j) == Some(#[trigger] cu[j]) by {
        assert(d[i + j] == cu[j]);
    }
    assert(unit_at(u, i + 0) == Some(cu[0]));
    if m > 1 {
        assert(unit_at(u, i + 1) == Some(cu[1]));
    }
    if m > 2 {
        assert(unit_at(u, i + 2) == Some(cu[2]));
    }
    if m > 3 {
        assert(unit_at(u, i + 3) == Some(cu[3]));
    }
    assert(unit_at(u, i + m) == next_unit(s, k));
}

/// The slots read by composition are always in range.
proof fn lemma_read_slots_in_range(u: Seq<Seq<char>>, p: int)
    ensures
        vowel_at(u, p) matches Some((v, q)) ==> 0 <= v < 21,
        0 <= trailing_at(u, p).0 < 28,
{
    if let Some(a) = unit_at(u, p) {
        if let Some(v) = vowel_index_of(a) {
            lemma_vowel_index(a, v);
        }
        if let Some(t) = trailing_index_of(a) {
            lemma_trailing_index(a, t);
        }
        if let Some(b) = unit_at(u, p + 1) {
            if let Some(j) = joined_vowel(a, b) {
                if let Some(v) = vowel_index_of(j) {
                    lemma_vowel_index(j, v);
                }
            }
            if let Some(j) = joined_trailing(a, b) {
                if let Some(t) = trailing_index_of(j) {
                    lemma_trailing_index(j, t);
                }
            }
        }
    }
}

/// Composition at the units of character `k` gives back that character and
/// moves to the units of character `k + 1`.
proof fn lemma_round_trip_step(s: Seq<char>, k: int)
    requires
        0 <= k < s.len(),
        stands_alone(s[k], next_unit(s, k)),
    ensures
        composed_from(singletons(decomposed(s)), decomposed(s.take(k)).len() as int) == seq![s[k]]
            + composed_from(singletons(decomposed(s)), decomposed(s.take(k + 1)).len() as int),
{
    let u = singletons(decomposed(s));
    let i = decomposed(s.take(k)).len() as int;
    let c = s[k];
    let m = char_units(c).len() as int;
    lemma_units_of_char(s, k);
    if is_syllable(c) {
        let l = leading_slot(c);
        let v = vowel_slot(c);
        let t = trailing_slot(c);
        lemma_slots_syllable(c);
        lemma_leading_index(leading_jamo(l), l);
        lemma_vowel_index(vowel_jamo(v), v);
        lemma_consonants_not_vowels(l, t);
        let p = 1 + vowel_units(v).len();
        match vowel_parts(vowel_jamo(v)) {
            Some((a, b)) => {
                lemma_vowel_compounds(vowel_jamo(v), a, b);
                assert(vowel_at(u, i + 1) == Some((v, i + 3)));
            },
            None => {
                if t != 0 {
                    lemma_vowel_compounds(vowel_jamo(v), vowel_jamo(v), trailing_jamo(t));
                    assert(unit_at(u, i + 2) == Some(trailing_jamo(t)));
                } else if let Some(n) = next_unit(s, k) {
                    lemma_vowel_compounds(vowel_jamo(v), vowel_jamo(v), n);
                }
                assert(vowel_at(u, i + 1) == Some((v, i + 2)));
            },
        }
        if t != 0 {
            lemma_trailing_index(trailing_jamo(t), t);
            assert(unit_at(u, i + p) == Some(trailing_jamo(t)));
            assert(trailing_at(u, i + p) == (t, i + p + 1));
        } else {
            assert(trailing_at(u, i + p) == (0int, i + p));
        }
        assert(syllable_at(u, i) == Some((c, i + m)));
    } else {
        assert(unit_at(u, i) == Some(c));
        if let Some(l) = leading_index_of(c) {
            if let Some(n) = next_unit(s, k) {
                assert(unit_at(u, i + 1) == Some(n));
                if let Some(b) = unit_at(u, i + 2) {
                    lemma_vowel_compounds(c, n, b);
                }
            }
            assert(vowel_at(u, i + 1) is None);
        }
        assert(syllable_at(u, i) is None);
        assert(u[i] == seq![c]);
    }
}

/// Where character `k` does not stand alone, composition at its units gives
/// back another character first.
proof fn lemma_round_trip_step_fails(s: Seq<char>, k: int)
    requires
        0 <= k < s.len(),
        !stands_alone(s[k], next_unit(s, k)),
    ensures
        ({
            let r = composed_from(singletons(decomposed(s)), decomposed(s.take(k)).len() as int);
            r.len() > 0 && r[0] != s[k]
        }),
{
    let u = singletons(decomposed(s));
    let i = decomposed(s.take(k)).len() as int;
    let c = s[k];
    let n = next_unit(s, k)->Some_0;
    lemma_units_of_char(s, k);
    if is_syllable(c) {
        let l = leading_slot(c);
        let v = vowel_slot(c);
        let t = trailing_slot(c);
        lemma_slots_syllable(c);
        lemma_leading_index(leading_jamo(l), l);
        lemma_vowel_index(vowel_jamo(v), v);
        lemma_consonants_not_vowels(l, t);
        let p = 1 + vowel_units(v).len();
        assert(unit_at(u, i) == Some(leading_jamo(l)));
        if t == 0 && vowel_parts(vowel_jamo(v)) is None && joined_vowel(vowel_jamo(v), n) is Some {
            let j = joined_vowel(vowel_jamo(v), n)->Some_0;
            lemma_vowel_compounds(j, vowel_jamo(v), n);
            let w = vowel_index_of(j)->Some_0;
            lemma_vowel_index(j, w);
            assert(unit_at(u, i + 2) == Some(n));
            assert(vowel_at(u, i + 1) == Some((w, i + 3)));
            lemma_read_slots_in_range(u, i + 3);
            let (t2, q) = trailing_at(u, i + 3);
            lemma_syllable_slots(l, w, t2);
            assert(syllable_at(u, i) == Some((syllable_of(l, w, t2), q)));
        } else {
            match vowel_parts(vowel_jamo(v)) {
                Some((a, b)) => {
                    lemma_vowel_compounds(vowel_jamo(v), a, b);
                    assert(vowel_at(u, i + 1) == Some((v, i + 3)));
                },
                None => {
                    if t != 0 {
                        lemma_vowel_compounds(vowel_jamo(v), vowel_jamo(v), trailing_jamo(t));
                        assert(unit_at(u, i + 2) == Some(trailing_jamo(t)));
                    }
                    assert(vowel_at(u, i + 1) == Some((v, i + 2)));
                },
            }
            lemma_read_slots_in_range(u, i + p);
            let (t2, q) = trailing_at(u, i + p);
            if t == 0 {
                let t1 = trailing_index_of(n)->Some_0;
                lemma_trailing_index(n, t1);
                assert(unit_at(u, i + p) == Some(n));
                if let Some(b) = unit_at(u, i + p + 1) {
                    if let Some(j) = joined_trailing(n, b) {
                        lemma_trailing_compounds(j, n, b);
                        lemma_trailing_index(j, trailing_index_of(j)->Some_0);
                    }
                }
                assert(t2 != 0);
            } else {
                let j = joined_trailing(trailing_jamo(t), n)->Some_0;
                lemma_trailing_compounds(j, trailing_jamo(t), n);
                let t3 = trailing_index_of(j)->Some_0;
                lemma_trailing_index(j, t3);
                lemma_trailing_index(trailing_jamo(t), t);
                assert(unit_at(u, i + p) == Some(trailing_jamo(t)));
                assert(unit_at(u, i + p + 1) == Some(n));
                assert(t2 == t3);
                assert(t2 != t);
            }
            lemma_syllable_slots(l, v, t2);
            assert(syllable_at(u, i) == Some((syllable_of(l, v, t2), q)));
        }
    } else {
        let l = leading_index_of(c)->Some_0;
        lemma_leading_index(c, l);
        assert(unit_at(u, i) == Some(c));
        assert(unit_at(u, i + 1) == Some(n));
        lemma_read_slots_in_range(u, i + 1);
        let (w, p) = vowel_at(u, i + 1)->Some_0;
        lemma_read_slots_in_range(u, p);
        let (t2, q) = trailing_at(u, p);
        lemma_syllable_slots(l, w, t2);
        assert(syllable_at(u, i) == Some((syllable_of(l, w, t2), q)));
    }
}

/// Composition from the units of character `k` gives back the rest of the text.
proof fn lemma_round_trip_from(s: Seq<char>, k: int)
    requires
        recomposable(s),
        0 <= k <= s.len(),
    ensures
        composed_from(singletons(decomposed(s)), decomposed(s.take(k)).len() as int) == s.skip(
            k,
        ),
    decreases s.len() - k,
{
    if k == s.len() {
        assert(s.take(k) =~= s);
        assert(s.skip(k) =~= Seq::<char>::empty());
    } else {
        assert(stands_alone(s[k], next_unit(s, k)));
        lemma_round_trip_step(s, k);
        lemma_round_trip_from(s, k + 1);
        assert(s.skip(k) =~= seq![s[k]] + s.skip(k + 1));
    }
}

/// Round trip: composing the units that a text decomposes into gives the text
/// back, whenever each of its characters stands alone before the units that
/// follow it. "가나" is not such a text: the ㄴ that opens its second syllable
/// is taken as the trailing consonant of the first.
pub proof fn lemma_round_trip(s: Seq<char>)
    requires
        recomposable(s),
    ensures
        composed(singletons(decomposed(s))) == s,
{
    lemma_round_trip_from(s, 0);
    assert(s.take(0) =~= Seq::<char>::empty());
    assert(s.skip(0) =~= s);
}

/// Where composition from the units of character `k` gives back the rest of
/// the text, every character from `k` on stands alone.
proof fn lemma_recomposed_from(s: Seq<char>, k: int)
    requires
        0 <= k <= s.len(),
        composed_from(singletons(decomposed(s)), decomposed(s.take(k)).len() as int) == s.skip(
            k,
        ),
    ensures
        forall|j: int| k <= j < s.len() ==> #[trigger] stands_alone(s[j], next_unit(s, j)),
    decreases s.len() - k,
{
    if k < s.len() {
        let u = singletons(decomposed(s));
        if !stands_alone(s[k], next_unit(s, k)) {
            lemma_round_trip_step_fails(s, k);
            assert(s.skip(k)[0] == s[k]);
        }
        lemma_round_trip_step(s, k);
        let rest = composed_from(u, decomposed(s.take(k + 1)).len() as int);
        assert(rest =~= (seq![s[k]] + rest).skip(1));
        assert(s.skip(k + 1) =~= s.skip(k).skip(1));
        lemma_recomposed_from(s, k + 1);
    }
}

/// The round trip holds only for recomposable texts: a text that composition
/// gives back from its own units has every character standing alone.
pub proof fn lemma_round_trip_only_if(s: Seq<char>)
    requires
        composed(singletons(decomposed(s))) == s,
    ensures
        recomposable(s),
{
    assert(s.take(0) =~= Seq::<char>::empty());
    assert(s.skip(0) =~= s);
    lemma_recomposed_from(s, 0);
}

/// Arity: a syllable decomposes into two units, one more for a compound
/// vowel, and one more for a trailing consonant.
pub proof fn lemma_syllable_arity(c: char)
    requires
        is_syllable(c),
    ensures
        decomposed(seq![c]).len() == 2 + (if vowel_parts(vowel_jamo(vowel_slot(c))) is Some {
            1int
        } else {
            0int
        }) + (if trailing_slot(c) != 0 {
            1int
        } else {
            0int
        }),
        2 <= decomposed(seq![c]).len() <= 4,
{
    lemma_decomposed_single(c);
}

/// Non-Hangul identity: a text without syllables decomposes into its own
/// characters, and is not detected as Korean.
pub proof fn lemma_non_syllable_identity(s: Seq<char>)
    requires
        forall|k: int| 0 <= k < s.len() ==> !is_syllable(#[trigger] s[k]),
    ensures
        decomposed(s) == s,
        !contains_syllable(s),
    decreases s.len(),
{
    if s.len() > 0 {
        lemma_non_syllable_identity(s.drop_last());
        assert(s =~= s.drop_last() + seq![s.last()]);
    }
}

} // verus!
