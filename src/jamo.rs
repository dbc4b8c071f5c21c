//! The compatibility-jamo alphabets of the three syllable slots, and the
//! tables of compound vowels and compound trailing clusters.
use vstd::prelude::*;

verus! {

/// Number of leading consonants.
pub const LEADING_COUNT: usize = 19;

/// Number of vowels.
pub const VOWEL_COUNT: usize = 21;

/// Number of trailing slot values, counting "no trailing consonant" as index 0.
pub const TRAILING_COUNT: usize = 28;

/// The leading consonant of slot index `l`, for `0 <= l < 19`.
pub open spec fn leading_jamo(l: int) -> char {
    if l == 0 {
        'ㄱ'
    } else if l == 1 {
        'ㄲ'
    } else if l == 2 {
        'ㄴ'
    } else if l == 3 {
        'ㄷ'
    } else if l == 4 {
        'ㄸ'
    } else if l == 5 {
        'ㄹ'
    } else if l == 6 {
        'ㅁ'
    } else if l == 7 {
        'ㅂ'
    } else if l == 8 {
        'ㅃ'
    } else if l == 9 {
        'ㅅ'
    } else if l == 10 {
        'ㅆ'
    } else if l == 11 {
        'ㅇ'
    } else if l == 12 {
        'ㅈ'
    } else if l == 13 {
        'ㅉ'
    } else if l == 14 {
        'ㅊ'
    } else if l == 15 {
        'ㅋ'
    } else if l == 16 {
        'ㅌ'
    } else if l == 17 {
        'ㅍ'
    } else {
        'ㅎ'
    }
}

/// The slot index of a leading consonant, if `c` is one.
pub open spec fn leading_index_of(c: char) -> Option<int> {
    match c {
        'ㄱ' => Some(0),
        'ㄲ' => Some(1),
        'ㄴ' => Some(2),
        'ㄷ' => Some(3),
        'ㄸ' => Some(4),
        'ㄹ' => Some(5),
        'ㅁ' => Some(6),
        'ㅂ' => Some(7),
        'ㅃ' => Some(8),
        'ㅅ' => Some(9),
        'ㅆ' => Some(10),
        'ㅇ' => Some(11),
        'ㅈ' => Some(12),
        'ㅉ' => Some(13),
        'ㅊ' => Some(14),
        'ㅋ' => Some(15),
        'ㅌ' => Some(16),
        'ㅍ' => Some(17),
        'ㅎ' => Some(18),
        _ => None,
    }
}

/// The vowel of slot index `v`, for `0 <= v < 21`.
pub open spec fn vowel_jamo(v: int) -> char {
    if v == 0 {
        'ㅏ'
    } else if v == 1 {
        'ㅐ'
    } else if v == 2 {
        'ㅑ'
    } else if v == 3 {
        'ㅒ'
    } else if v == 4 {
        'ㅓ'
    } else if v == 5 {
        'ㅔ'
    } else if v == 6 {
        'ㅕ'
    } else if v == 7 {
        'ㅖ'
    } else if v == 8 {
        'ㅗ'
    } else if v == 9 {
        'ㅘ'
    } else if v == 10 {
        'ㅙ'
    } else if v == 11 {
        'ㅚ'
    } else if v == 12 {
        'ㅛ'
    } else if v == 13 {
        'ㅜ'
    } else if v == 14 {
        'ㅝ'
    } else if v == 15 {
        'ㅞ'
    } else if v == 16 {
        'ㅟ'
    } else if v == 17 {
        'ㅠ'
    } else if v == 18 {
        'ㅡ'
    } else if v == 19 {
        'ㅢ'
    } else {
        'ㅣ'
    }
}

/// The slot index of a vowel, if `c` is one.
pub open spec fn vowel_index_of(c: char) -> Option<int> {
    match c {
        'ㅏ' => Some(0),
        'ㅐ' => Some(1),
        'ㅑ' => Some(2),
        'ㅒ' => Some(3),
        'ㅓ' => Some(4),
        'ㅔ' => Some(5),
        'ㅕ' => Some(6),
        'ㅖ' => Some(7),
        'ㅗ' => Some(8),
        'ㅘ' => Some(9),
        'ㅙ' => Some(10),
        'ㅚ' => Some(11),
        'ㅛ' => Some(12),
        'ㅜ' => Some(13),
        'ㅝ' => Some(14),
        'ㅞ' => Some(15),
        'ㅟ' => Some(16),
        'ㅠ' => Some(17),
        'ㅡ' => Some(18),
        'ㅢ' => Some(19),
        'ㅣ' => Some(20),
        _ => None,
    }
}

/// The trailing consonant of slot index `t`, for `1 <= t < 28`
/// (index 0 stands for "no trailing consonant" and has no letter).
pub open spec fn trailing_jamo(t: int) -> char {
    if t == 1 {
        'ㄱ'
    } else if t == 2 {
        'ㄲ'
    } else if t == 3 {
        'ㄳ'
    } else if t == 4 {
        'ㄴ'
    } else if t == 5 {
        'ㄵ'
    } else if t == 6 {
        'ㄶ'
    } else if t == 7 {
        'ㄷ'
    } else if t == 8 {
        'ㄹ'
    } else if t == 9 {
        'ㄺ'
    } else if t == 10 {
        'ㄻ'
    } else if t == 11 {
        'ㄼ'
    } else if t == 12 {
        'ㄽ'
    } else if t == 13 {
        'ㄾ'
    } else if t == 14 {
        'ㄿ'
    } else if t == 15 {
        'ㅀ'
    } else if t == 16 {
        'ㅁ'
    } else if t == 17 {
        'ㅂ'
    } else if t == 18 {
        'ㅄ'
    } else if t == 19 {
        'ㅅ'
    } else if t == 20 {
        'ㅆ'
    } else if t == 21 {
        'ㅇ'
    } else if t == 22 {
        'ㅈ'
    } else if t == 23 {
        'ㅊ'
    } else if t == 24 {
        'ㅋ'
    } else if t == 25 {
        'ㅌ'
    } else if t == 26 {
        'ㅍ'
    } else {
        'ㅎ'
    }
}

/// The slot index (never 0) of a trailing consonant, if `c` is one.
pub open spec fn trailing_index_of(c: char) -> Option<int> {
    match c {
        'ㄱ' => Some(1),
        'ㄲ' => Some(2),
        'ㄳ' => Some(3),
        'ㄴ' => Some(4),
        'ㄵ' => Some(5),
        'ㄶ' => Some(6),
        'ㄷ' => Some(7),
        'ㄹ' => Some(8),
        'ㄺ' => Some(9),
        'ㄻ' => Some(10),
        'ㄼ' => Some(11),
        'ㄽ' => Some(12),
        'ㄾ' => Some(13),
        'ㄿ' => Some(14),
        'ㅀ' => Some(15),
        'ㅁ' => Some(16),
        'ㅂ' => Some(17),
        'ㅄ' => Some(18),
        'ㅅ' => Some(19),
        'ㅆ' => Some(20),
        'ㅇ' => Some(21),
        'ㅈ' => Some(22),
        'ㅊ' => Some(23),
        'ㅋ' => Some(24),
        'ㅌ' => Some(25),
        'ㅍ' => Some(26),
        'ㅎ' => Some(27),
        _ => None,
    }
}

/// The two simple vowels a compound vowel is written with, in order.
pub open spec fn vowel_parts(c: char) -> Option<(char, char)> {
    match c {
        'ㅘ' => Some(('ㅗ', 'ㅏ')),
        'ㅙ' => Some(('ㅗ', 'ㅐ')),
        'ㅚ' => Some(('ㅗ', 'ㅣ')),
        'ㅝ' => Some(('ㅜ', 'ㅓ')),
        'ㅞ' => Some(('ㅜ', 'ㅔ')),
        'ㅟ' => Some(('ㅜ', 'ㅣ')),
        'ㅢ' => Some(('ㅡ', 'ㅣ')),
        _ => None,
    }
}

/// The compound vowel written as the ordered pair `a`, `b`, if there is one.
pub open spec fn joined_vowel(a: char, b: char) -> Option<char> {
    match (a, b) {
        ('ㅗ', 'ㅏ') => Some('ㅘ'),
        ('ㅗ', 'ㅐ') => Some('ㅙ'),
        ('ㅗ', 'ㅣ') => Some('ㅚ'),
        ('ㅜ', 'ㅓ') => Some('ㅝ'),
        ('ㅜ', 'ㅔ') => Some('ㅞ'),
        ('ㅜ', 'ㅣ') => Some('ㅟ'),
        ('ㅡ', 'ㅣ') => Some('ㅢ'),
        _ => None,
    }
}

/// The compound trailing cluster written as the ordered pair `a`, `b`, if there is one.
pub open spec fn joined_trailing(a: char, b: char) -> Option<char> {
    match (a, b) {
        ('ㄱ', 'ㅅ') => Some('ㄳ'),
        ('ㄴ', 'ㅈ') => Some('ㄵ'),
        ('ㄴ', 'ㅎ') => Some('ㄶ'),
        ('ㄹ', 'ㄱ') => Some('ㄺ'),
        ('ㄹ', 'ㅁ') => Some('ㄻ'),
        ('ㄹ', 'ㅂ') => Some('ㄼ'),
        ('ㄹ', 'ㅅ') => Some('ㄽ'),
        ('ㄹ', 'ㅌ') => Some('ㄾ'),
        ('ㄹ', 'ㅍ') => Some('ㄿ'),
        ('ㄹ', 'ㅎ') => Some('ㅀ'),
        ('ㅂ', 'ㅅ') => Some('ㅄ'),
        _ => None,
    }
}

/// The leading-consonant table and its reverse lookup agree.
pub proof fn lemma_leading_index(c: char, l: int)
    ensures
        leading_index_of(c) == Some(l) <==> (0 <= l < 19 && leading_jamo(l) == c),
{
}

/// The vowel table and its reverse lookup agree.
pub proof fn lemma_vowel_index(c: char, v: int)
    ensures
        vowel_index_of(c) == Some(v) <==> (0 <= v < 21 && vowel_jamo(v) == c),
{
}

/// The trailing-consonant table and its reverse lookup agree.
pub proof fn lemma_trailing_index(c: char, t: int)
    ensures
        trailing_index_of(c) == Some(t) <==> (1 <= t < 28 && trailing_jamo(t) == c),
{
}

/// Splitting a compound vowel and joining the parts are inverse, and every
/// compound and every part is a vowel of the table.
pub proof fn lemma_vowel_compounds(c: char, a: char, b: char)
    ensures
        vowel_parts(c) == Some((a, b)) <==> joined_vowel(a, b) == Some(c),
        joined_vowel(a, b) == Some(c) ==> vowel_index_of(c) is Some,
        joined_vowel(a, b) is Some ==> vowel_index_of(a) is Some && vowel_index_of(b) is Some,
        joined_vowel(a, b) == Some(c) ==> vowel_parts(a) is None,
{
}

/// Every compound trailing cluster is a trailing consonant of the table, other
/// than the first letter of its pair.
pub proof fn lemma_trailing_compounds(c: char, a: char, b: char)
    ensures
        joined_trailing(a, b) == Some(c) ==> trailing_index_of(c) is Some && c != a,
{
}

/// No consonant of the leading or trailing tables is a vowel.
pub proof fn lemma_consonants_not_vowels(l: int, t: int)
    ensures
        0 <= l < 19 ==> vowel_index_of(leading_jamo(l)) is None,
        1 <= t < 28 ==> vowel_index_of(trailing_jamo(t)) is None,
{
}

/// The leading consonant of slot index `l`.
pub fn leading_jamo_at(l: usize) -> (c: char)
    requires
        l < LEADING_COUNT,
    ensures
        c == leading_jamo(l as int),
{
    match l {
        0 => 'ㄱ',
        1 => 'ㄲ',
        2 => 'ㄴ',
        3 => 'ㄷ',
        4 => 'ㄸ',
        5 => 'ㄹ',
        6 => 'ㅁ',
        7 => 'ㅂ',
        8 => 'ㅃ',
        9 => 'ㅅ',
        10 => 'ㅆ',
        11 => 'ㅇ',
        12 => 'ㅈ',
        13 => 'ㅉ',
        14 => 'ㅊ',
        15 => 'ㅋ',
        16 => 'ㅌ',
        17 => 'ㅍ',
        _ => 'ㅎ',
    }
}

/// The vowel of slot index `v`.
pub fn vowel_jamo_at(v: usize) -> (c: char)
    requires
        v < VOWEL_COUNT,
    ensures
        c == vowel_jamo(v as int),
{
    match v {
        0 => 'ㅏ',
        1 => 'ㅐ',
        2 => 'ㅑ',
        3 => 'ㅒ',
        4 => 'ㅓ',
        5 => 'ㅔ',
        6 => 'ㅕ',
        7 => 'ㅖ',
        8 => 'ㅗ',
        9 => 'ㅘ',
        10 => 'ㅙ',
        11 => 'ㅚ',
        12 => 'ㅛ',
        13 => 'ㅜ',
        14 => 'ㅝ',
        15 => 'ㅞ',
        16 => 'ㅟ',
        17 => 'ㅠ',
        18 => 'ㅡ',
        19 => 'ㅢ',
        _ => 'ㅣ',
    }
}

/// The trailing consonant of slot index `t`.
pub fn trailing_jamo_at(t: usize) -> (c: char)
    requires
        1 <= t < TRAILING_COUNT,
    ensures
        c == trailing_jamo(t as int),
{
    match t {
        1 => 'ㄱ',
        2 => 'ㄲ',
        3 => 'ㄳ',
        4 => 'ㄴ',
        5 => 'ㄵ',
        6 => 'ㄶ',
        7 => 'ㄷ',
        8 => 'ㄹ',
        9 => 'ㄺ',
        10 => 'ㄻ',
        11 => 'ㄼ',
        12 => 'ㄽ',
        13 => 'ㄾ',
        14 => 'ㄿ',
        15 => 'ㅀ',
        16 => 'ㅁ',
        17 => 'ㅂ',
        18 => 'ㅄ',
        19 => 'ㅅ',
        20 => 'ㅆ',
        21 => 'ㅇ',
        22 => 'ㅈ',
        23 => 'ㅊ',
        24 => 'ㅋ',
        25 => 'ㅌ',
        26 => 'ㅍ',
        _ => 'ㅎ',
    }
}

/// The slot index of a leading consonant, found by a search of the table.
pub fn leading_index(c: char) -> (r: Option<usize>)
    ensures
        match r {
            Some(l) => l < LEADING_COUNT && leading_index_of(c) == Some(l as int),
            None => leading_index_of(c) is None,
        },
{
    let mut l: usize = 0;
    while l < LEADING_COUNT
        invariant
            l <= LEADING_COUNT,
            forall|k: int| 0 <= k < l ==> leading_jamo(k) != c,
        decreases LEADING_COUNT - l,
    {
        if leading_jamo_at(l) == c {
            proof {
                lemma_leading_index(c, l as int);
            }
            return Some(l);
        }
        l = l + 1;
    }
    proof {
        if let Some(k) = leading_index_of(c) {
            lemma_leading_index(c, k);
        }
    }
    None
}

/// The slot index of a vowel, found by a search of the table.
pub fn vowel_index(c: char) -> (r: Option<usize>)
    ensures
        match r {
            Some(v) => v < VOWEL_COUNT && vowel_index_of(c) == Some(v as int),
            None => vowel_index_of(c) is None,
        },
{
    let mut v: usize = 0;
    while v < VOWEL_COUNT
        invariant
            v <= VOWEL_COUNT,
            forall|k: int| 0 <= k < v ==> vowel_jamo(k) != c,
        decreases VOWEL_COUNT - v,
    {
        if vowel_jamo_at(v) == c {
            proof {
                lemma_vowel_index(c, v as int);
            }
            return Some(v);
        }
        v = v + 1;
    }
    proof {
        if let Some(k) = vowel_index_of(c) {
            lemma_vowel_index(c, k);
        }
    }
    None
}

/// The slot index (never 0) of a trailing consonant, found by a search of the table.
pub fn trailing_index(c: char) -> (r: Option<usize>)
    ensures
        match r {
            Some(t) => 1 <= t < TRAILING_COUNT && trailing_index_of(c) == Some(t as int),
            None => trailing_index_of(c) is None,
        },
{
    let mut t: usize = 1;
    while t < TRAILING_COUNT
        invariant
            1 <= t <= TRAILING_COUNT,
            forall|k: int| 1 <= k < t ==> trailing_jamo(k) != c,
        decreases TRAILING_COUNT - t,
    {
        if trailing_jamo_at(t) == c {
            proof {
                lemma_trailing_index(c, t as int);
            }
            return Some(t);
        }
        t = t + 1;
    }
    proof {
        if let Some(k) = trailing_index_of(c) {
            lemma_trailing_index(c, k);
        }
    }
    None
}

/// The two simple vowels of a compound vowel, or `None` for a simple one.
pub fn split_vowel(c: char) -> (r: Option<(char, char)>)
    ensures
        r == vowel_parts(c),
{
    match c {
        'ㅘ' => Some(('ㅗ', 'ㅏ')),
        'ㅙ' => Some(('ㅗ', 'ㅐ')),
        'ㅚ' => Some(('ㅗ', 'ㅣ')),
        'ㅝ' => Some(('ㅜ', 'ㅓ')),
        'ㅞ' => Some(('ㅜ', 'ㅔ')),
        'ㅟ' => Some(('ㅜ', 'ㅣ')),
        'ㅢ' => Some(('ㅡ', 'ㅣ')),
        _ => None,
    }
}

/// The compound vowel written as `a`, `b`, if there is one.
pub fn compose_vowel(a: char, b: char) -> (r: Option<char>)
    ensures
        r == joined_vowel(a, b),
{
    match (a, b) {
        ('ㅗ', 'ㅏ') => Some('ㅘ'),
        ('ㅗ', 'ㅐ') => Some('ㅙ'),
        ('ㅗ', 'ㅣ') => Some('ㅚ'),
        ('ㅜ', 'ㅓ') => Some('ㅝ'),
        ('ㅜ', 'ㅔ') => Some('ㅞ'),
        ('ㅜ', 'ㅣ') => Some('ㅟ'),
        ('ㅡ', 'ㅣ') => Some('ㅢ'),
        _ => None,
    }
}

/// The compound trailing cluster written as `a`, `b`, if there is one.
pub fn compose_jongseong(a: char, b: char) -> (r: Option<char>)
    ensures
        r == joined_trailing(a, b),
{
    match (a, b) {
        ('ㄱ', 'ㅅ') => Some('ㄳ'),
        ('ㄴ', 'ㅈ') => Some('ㄵ'),
        ('ㄴ', 'ㅎ') => Some('ㄶ'),
        ('ㄹ', 'ㄱ') => Some('ㄺ'),
        ('ㄹ', 'ㅁ') => Some('ㄻ'),
        ('ㄹ', 'ㅂ') => Some('ㄼ'),
        ('ㄹ', 'ㅅ') => Some('ㄽ'),
        ('ㄹ', 'ㅌ') => Some('ㄾ'),
        ('ㄹ', 'ㅍ') => Some('ㄿ'),
        ('ㄹ', 'ㅎ') => Some('ㅀ'),
        ('ㅂ', 'ㅅ') => Some('ㅄ'),
        _ => None,
    }
}

} // verus!
