//! Joining a sequence of jamo units back into syllables.
use vstd::prelude::*;
use vstd::string::{StrSliceExecFns, StringExecFns};
use crate::jamo::{
    leading_index_of, vowel_index_of, trailing_index_of, joined_vowel, joined_trailing,
    leading_index, vowel_index, trailing_index, compose_vowel, compose_jongseong,
};
use crate::syllable::{syllable_of, lemma_syllable_slots, SYLLABLE_FIRST};
use crate::text::{push_char, char_from_code};
use crate::tokens::unit_views;

verus! {

/// The letter that unit `k` stands for: a unit counts as a letter only when it
/// holds exactly one character.
pub open spec fn unit_at(u: Seq<Seq<char>>, k: int) -> Option<char> {
    if 0 <= k < u.len() && u[k].len() == 1 {
        Some(u[k][0])
    } else {
        None
    }
}

/// The vowel slot read from position `p`, and the position after it: a
/// compound pair is tried before a single vowel.
pub open spec fn vowel_at(u: Seq<Seq<char>>, p: int) -> Option<(int, int)> {
    match unit_at(u, p) {
        None => None,
        Some(a) => {
            let compound = match unit_at(u, p + 1) {
                Some(b) => match joined_vowel(a, b) {
                    Some(j) => vowel_index_of(j),
                    None => None,
                },
                None => None,
            };
            match compound {
                Some(v) => Some((v, p + 2)),
                None => match vowel_index_of(a) {
                    Some(v) => Some((v, p + 1)),
                    None => None,
                },
            }
        },
    }
}

/// The trailing slot read from position `p` (0 when none is there), and the
/// position after it: a compound pair is tried before a single consonant.
pub open spec fn trailing_at(u: Seq<Seq<char>>, p: int) -> (int, int) {
    match unit_at(u, p) {
        None => (0, p),
        Some(a) => match trailing_index_of(a) {
            None => (0, p),
            Some(single) => {
                let compound = match unit_at(u, p + 1) {
                    Some(b) => match joined_trailing(a, b) {
                        Some(j) => trailing_index_of(j),
                        None => None,
                    },
                    None => None,
                };
                match compound {
                    Some(t) => (t, p + 2),
                    None => (single, p + 1),
                }
            },
        },
    }
}

/// The syllable that starts at position `i`, with the position after it:
/// a leading consonant, a vowel, and a trailing consonant if one follows.
pub open spec fn syllable_at(u: Seq<Seq<char>>, i: int) -> Option<(char, int)> {
    match unit_at(u, i) {
        None => None,
        Some(a) => match leading_index_of(a) {
            None => None,
            Some(l) => match vowel_at(u, i + 1) {
                None => None,
                Some((v, p)) => {
                    let (t, q) = trailing_at(u, p);
                    Some((syllable_of(l, v, t), q))
                },
            },
        },
    }
}

/// The text composed from the units at positions `i` and after: each
/// syllable that can start at a position is taken, else the unit there is
/// passed through whole.
pub open spec fn composed_from(u: Seq<Seq<char>>, i: int) -> Seq<char>
    decreases u.len() - i,
{
    if i < 0 || i >= u.len() {
        seq![]
    } else {
        match syllable_at(u, i) {
            Some((c, q)) => seq![c] + composed_from(u, q),
            None => u[i] + composed_from(u, i + 1),
        }
    }
}

/// The text composed from a whole unit sequence.
pub open spec fn composed(u: Seq<Seq<char>>) -> Seq<char> {
    composed_from(u, 0)
}

/// The letter that unit `k` stands for, if it holds exactly one character.
fn unit_char(units: &Vec<String>, k: usize) -> (r: Option<char>)
    ensures
        r == unit_at(unit_views(units@), k as int),
{
    if k < units.len() {
        let s: &str = units[k].as_str();
        if s.unicode_len() == 1 {
            Some(s.get_char(0))
        } else {
            None
        }
    } else {
        None
    }
}

/// Reads the vowel at position `p`.
fn read_vowel(units: &Vec<String>, p: usize) -> (r: Option<(usize, usize)>)
    requires
        p <= units.len(),
    ensures
        match r {
            Some((v, q)) => vowel_at(unit_views(units@), p as int) == Some((v as int, q as int))
                && v < 21 && p < q <= units.len(),
            None => vowel_at(unit_views(units@), p as int) is None,
        },
{
    let ghost u = unit_views(units@);
    let first = unit_char(units, p);
    match first {
        None => None,
        Some(a) => {
            let mut compound: Option<usize> = None;
            if p + 1 < units.len() {
                if let Some(b) = unit_char(units, p + 1) {
                    if let Some(j) = compose_vowel(a, b) {
                        compound = vowel_index(j);
                    }
                }
            }
            assert(compound matches Some(v) ==> vowel_at(u, p as int) == Some((v as int, p + 2)));
            match compound {
                Some(v) => Some((v, p + 2)),
                None => match vowel_index(a) {
                    Some(v) => Some((v, p + 1)),
                    None => None,
                },
            }
        },
    }
}

/// Reads the trailing consonant at position `p`, if there is one.
fn read_trailing(units: &Vec<String>, p: usize) -> (r: (usize, usize))
    requires
        p <= units.len(),
    ensures
        trailing_at(unit_views(units@), p as int) == (r.0 as int, r.1 as int),
        r.0 < 28,
        p <= r.1 <= units.len(),
{
    let ghost u = unit_views(units@);
    match unit_char(units, p) {
        None => (0, p),
        Some(a) => match trailing_index(a) {
            None => (0, p),
            Some(single) => {
                let mut compound: Option<usize> = None;
                if p + 1 < units.len() {
                    if let Some(b) = unit_char(units, p + 1) {
                        if let Some(j) = compose_jongseong(a, b) {
                            compound = trailing_index(j);
                        }
                    }
                }
                assert(compound matches Some(t) ==> trailing_at(u, p as int) == (t as int, p + 2));
                match compound {
                    Some(t) => (t, p + 2),
                    None => (single, p + 1),
                }
            },
        },
    }
}

/// Reads the syllable that starts at position `i`, if one does.
fn read_syllable(units: &Vec<String>, i: usize) -> (r: Option<(char, usize)>)
    requires
        i < units.len(),
    ensures
        match r {
            Some((c, q)) => syllable_at(unit_views(units@), i as int) == Some((c, q as int))
                && i < q <= units.len(),
            None => syllable_at(unit_views(units@), i as int) is None,
        },
{
    let ghost u = unit_views(units@);
    let a = match unit_char(units, i) {
        Some(a) => a,
        None => return None,
    };
    let l = match leading_index(a) {
        Some(l) => l,
        None => return None,
    };
    let (v, p) = match read_vowel(units, i + 1) {
        Some(found) => found,
        None => return None,
    };
    let (t, q) = read_trailing(units, p);
    let code: u32 = SYLLABLE_FIRST + (l as u32) * 588 + (v as u32) * 28 + (t as u32);
    proof {
        lemma_syllable_slots(l as int, v as int, t as int);
    }
    match char_from_code(code) {
        Some(c) => Some((c, q)),
        None => None,
    }
}

/// Composes a sequence of jamo units into text.
///
/// At each position the longest syllable that starts there is taken: a
/// leading consonant, then a vowel (a compound pair before a single vowel),
/// then a trailing consonant if one follows (a compound pair before a single
/// consonant). Where no syllable starts, the unit is passed through whole.
pub fn compose(jamo_list: Vec<String>) -> (r: String)
    ensures
        r@ == composed(unit_views(jamo_list@)),
{
    let ghost u = unit_views(jamo_list@);
    let mut result = String::new();
    let mut i: usize = 0;
    while i < jamo_list.len()
        invariant
            u == unit_views(jamo_list@),
            i <= jamo_list.len(),
            result@ + composed_from(u, i as int) == composed(u),
        decreases jamo_list.len() - i,
    {
        match read_syllable(&jamo_list, i) {
            Some((c, q)) => {
                let ghost before = result@;
                push_char(&mut result, c);
                assert(result@ + composed_from(u, q as int) =~= before + composed_from(u, i as int));
                i = q;
            },
            None => {
                let ghost before = result@;
                result.append(jamo_list[i].as_str());
                assert(u[i as int] == jamo_list@[i as int]@);
                assert(result@ + composed_from(u, i + 1) =~= before + composed_from(u, i as int));
                i = i + 1;
            },
        }
    }
    proof {
        assert(result@ =~= result@ + composed_from(u, i as int));
    }
    result
}

} // verus!
